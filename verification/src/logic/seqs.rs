use vstd::prelude::*;

verus! {

/// Filtering one element more: the new element is appended if it passes,
/// and left out if not.
pub proof fn lemma_filter_step<A>(s: Seq<A>, pred: spec_fn(A) -> bool, k: int)
    requires
        0 <= k < s.len(),
    ensures
        s.take(k + 1).filter(pred) == if pred(s[k]) {
            s.take(k).filter(pred).push(s[k])
        } else {
            s.take(k).filter(pred)
        },
        s.take(0).filter(pred) == Seq::<A>::empty(),
{
    reveal(Seq::filter);
    assert(s.take(k + 1).drop_last() =~= s.take(k));
    assert(s.take(0) =~= Seq::<A>::empty());
}

/// Nothing passes a filter of the empty sequence.
pub proof fn lemma_filter_empty<A>(pred: spec_fn(A) -> bool)
    ensures
        Seq::<A>::empty().filter(pred) == Seq::<A>::empty(),
{
    reveal(Seq::filter);
}

/// A filter keeps an element exactly if it is in the sequence and passes.
pub proof fn lemma_filter_contains<A>(s: Seq<A>, pred: spec_fn(A) -> bool, a: A)
    ensures
        s.filter(pred).contains(a) <==> (s.contains(a) && pred(a)),
    decreases s.len(),
{
    reveal(Seq::filter);
    if s.len() > 0 {
        lemma_filter_contains(s.drop_last(), pred, a);
        let sub = s.drop_last().filter(pred);
        if s.contains(a) {
            let i = choose|i: int| 0 <= i < s.len() && s[i] == a;
            if i < s.len() - 1 {
                assert(s.drop_last()[i] == a);
            }
        }
        if s.drop_last().contains(a) {
            let i = choose|i: int| 0 <= i < s.drop_last().len() && s.drop_last()[i] == a;
            assert(s[i] == a);
        }
        if pred(s.last()) {
            assert(s.filter(pred) == sub.push(s.last()));
            if sub.contains(a) {
                let i = choose|i: int| 0 <= i < sub.len() && sub[i] == a;
                assert(sub.push(s.last())[i] == a);
            }
            if a == s.last() {
                assert(sub.push(s.last())[sub.len() as int] == a);
                assert(s[s.len() - 1] == a);
            }
        }
    }
}

/// A filter lets something through exactly if some element passes.
pub proof fn lemma_filter_nonempty<A>(s: Seq<A>, pred: spec_fn(A) -> bool)
    ensures
        s.filter(pred).len() > 0 <==> exists|i: int| 0 <= i < s.len() && pred(#[trigger] s[i]),
{
    if s.filter(pred).len() > 0 {
        let a = s.filter(pred)[0];
        assert(s.filter(pred).contains(a));
        lemma_filter_contains(s, pred, a);
        let i = choose|i: int| 0 <= i < s.len() && s[i] == a;
        assert(pred(s[i]));
    }
    if exists|i: int| 0 <= i < s.len() && pred(#[trigger] s[i]) {
        let i = choose|i: int| 0 <= i < s.len() && pred(#[trigger] s[i]);
        assert(s.contains(s[i]));
        lemma_filter_contains(s, pred, s[i]);
    }
}


/// Every element of a filtered sequence is an element of the sequence
/// that passes.
pub proof fn lemma_filter_element<A>(s: Seq<A>, pred: spec_fn(A) -> bool, k: int)
    requires
        0 <= k < s.filter(pred).len(),
    ensures
        s.contains(s.filter(pred)[k]),
        pred(s.filter(pred)[k]),
{
    let a = s.filter(pred)[k];
    assert(s.filter(pred).contains(a));
    lemma_filter_contains(s, pred, a);
}

/// Every element of a flattened sequence stands in one of its parts.
pub proof fn lemma_flatten_element<A>(parts: Seq<Seq<A>>, k: int) -> (place: (int, int))
    requires
        0 <= k < parts.flatten().len(),
    ensures
        0 <= place.0 < parts.len(),
        0 <= place.1 < parts[place.0].len(),
        parts[place.0][place.1] == parts.flatten()[k],
    decreases parts.len(),
{
    if parts.len() == 0 {
        (0, 0)
    } else if k < parts.first().len() {
        (0, k)
    } else {
        let rest = lemma_flatten_element(parts.drop_first(), k - parts.first().len());
        (rest.0 + 1, rest.1)
    }
}

/// Every element of a part stands in the flattened sequence.
pub proof fn lemma_part_is_in_flatten<A>(parts: Seq<Seq<A>>, i: int, j: int)
    requires
        0 <= i < parts.len(),
        0 <= j < parts[i].len(),
    ensures
        parts.flatten().contains(parts[i][j]),
    decreases parts.len(),
{
    let flat = parts.flatten();
    if i == 0 {
        assert(flat[j] == parts[0][j]);
    } else {
        let rest = parts.drop_first();
        assert(rest[i - 1] == parts[i]);
        lemma_part_is_in_flatten(rest, i - 1, j);
        let k = choose|k: int| 0 <= k < rest.flatten().len() && rest.flatten()[k] == parts[i][j];
        assert(flat[parts.first().len() + k] == parts[i][j]);
    }
}

} // verus!
