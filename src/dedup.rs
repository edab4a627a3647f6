use vstd::prelude::*;

verus! {

/// `s` with `x` appended unless already present.
pub open spec fn add_one<A>(s: Seq<A>, x: A) -> Seq<A> {
    if s.contains(x) {
        s
    } else {
        s.push(x)
    }
}

/// `s` with each element of `xs` appended in turn, skipping those present.
pub open spec fn add_all<A>(s: Seq<A>, xs: Seq<A>) -> Seq<A>
    decreases xs.len(),
{
    if xs.len() == 0 {
        s
    } else {
        add_one(add_all(s, xs.drop_last()), xs.last())
    }
}

pub proof fn lemma_add_all_contains<A>(s: Seq<A>, xs: Seq<A>, x: A)
    ensures
        add_all(s, xs).contains(x) <==> s.contains(x) || xs.contains(x),
    decreases xs.len(),
{
    if xs.len() > 0 {
        lemma_add_all_contains(s, xs.drop_last(), x);
        let prev = add_all(s, xs.drop_last());
        if prev.contains(xs.last()) {
        } else {
            assert(prev.push(xs.last())[prev.len() as int] == xs.last());
            if prev.push(xs.last()).contains(x) && x != xs.last() {
                let i = choose|i: int| 0 <= i < prev.len() + 1 && prev.push(xs.last())[i] == x;
                assert(prev[i] == x);
            }
            if prev.contains(x) {
                let i = choose|i: int| 0 <= i < prev.len() && prev[i] == x;
                assert(prev.push(xs.last())[i] == x);
            }
        }
        if xs.contains(x) && x != xs.last() {
            let i = choose|i: int| 0 <= i < xs.len() && xs[i] == x;
            assert(xs.drop_last()[i] == x);
        }
        if xs.drop_last().contains(x) {
            let i = choose|i: int| 0 <= i < xs.len() - 1 && xs.drop_last()[i] == x;
            assert(xs[i] == x);
        }
        assert(xs[xs.len() - 1] == xs.last());
    }
}

pub proof fn lemma_add_all_no_duplicates<A>(s: Seq<A>, xs: Seq<A>)
    requires
        s.no_duplicates(),
    ensures
        add_all(s, xs).no_duplicates(),
    decreases xs.len(),
{
    if xs.len() > 0 {
        lemma_add_all_no_duplicates(s, xs.drop_last());
        let prev = add_all(s, xs.drop_last());
        if !prev.contains(xs.last()) {
            let n = prev.push(xs.last());
            assert forall|i: int, j: int| 0 <= i < n.len() && 0 <= j < n.len() && i != j implies n[i]
                != n[j] by {
                if i == prev.len() && n[i] == n[j] {
                    assert(prev[j] == xs.last());
                }
                if j == prev.len() && n[i] == n[j] {
                    assert(prev[i] == xs.last());
                }
            }
        }
    }
}

/// Adding elements that are all present already changes nothing.
pub proof fn lemma_add_all_absorbs<A>(t: Seq<A>, xs: Seq<A>)
    requires
        forall|j: int| 0 <= j < xs.len() ==> t.contains(#[trigger] xs[j]),
    ensures
        add_all(t, xs) == t,
    decreases xs.len(),
{
    if xs.len() > 0 {
        assert forall|j: int| 0 <= j < xs.drop_last().len() implies t.contains(
            #[trigger] xs.drop_last()[j],
        ) by {
            assert(xs.drop_last()[j] == xs[j]);
        }
        lemma_add_all_absorbs(t, xs.drop_last());
        assert(t.contains(xs[xs.len() - 1]));
    }
}

/// Adding the same elements a second time leaves the result of the first.
pub proof fn lemma_add_all_idempotent<A>(s: Seq<A>, xs: Seq<A>)
    ensures
        add_all(add_all(s, xs), xs) == add_all(s, xs),
{
    let t = add_all(s, xs);
    assert forall|j: int| 0 <= j < xs.len() implies t.contains(#[trigger] xs[j]) by {
        assert(xs.contains(xs[j]));
        lemma_add_all_contains(s, xs, xs[j]);
    }
    lemma_add_all_absorbs(t, xs);
}

} // verus!
