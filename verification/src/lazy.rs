use vstd::prelude::*;

verus! {

/// A lazy, single-pass, pull-based sequence: each call to `next` either
/// yields the next item or reports that the sequence is exhausted.
pub trait PullIterator: Sized {
    type Item;

    /// The items this sequence has yet to yield, front first.
    spec fn remaining(&self) -> Seq<Self::Item>;

    /// Yields the front of `remaining`, or `None` once nothing is left.
    /// Exhaustion is reported exactly when nothing remained, and leaves the
    /// state unchanged, so it is terminal.
    fn next(&mut self) -> (r: Option<Self::Item>)
        ensures
            match r {
                Some(x) => old(self).remaining().len() > 0 && x == old(self).remaining()[0]
                    && final(self).remaining() == old(self).remaining().drop_first(),
                None => old(self).remaining().len() == 0 && final(self).remaining() == old(
                    self,
                ).remaining(),
            },
    ;
}

/// How one call to `next` relates the states before and after the call and
/// the result: a yielded item is the front of what remained, and exhaustion
/// is reported exactly when nothing remained, leaving the state unchanged.
/// The contract of `next` states exactly this relation; it is written out
/// there because a trait contract cannot call a function that is itself
/// generic over the trait.
pub open spec fn pull_step<I: PullIterator>(pre: I, post: I, r: Option<I::Item>) -> bool {
    match r {
        Some(x) => pre.remaining().len() > 0 && x == pre.remaining()[0]
            && post.remaining() == pre.remaining().drop_first(),
        None => pre.remaining().len() == 0 && post.remaining() == pre.remaining(),
    }
}

/// A mapping from outer items to inner lazy sequences. A mapper value may
/// carry and mutate state of its own between invocations; the sequence it
/// produces is nevertheless determined by the argument alone, via `map_spec`.
pub trait Mapper<A>: Sized {
    type Inner: PullIterator;

    /// What the inner sequence produced for `a` yields, in order.
    spec fn map_spec(a: A) -> Seq<<Self::Inner as PullIterator>::Item>;

    /// Produces the inner sequence for one outer item.
    fn map(&mut self, a: A) -> (r: Self::Inner)
        ensures
            r.remaining() == Self::map_spec(a),
    ;
}

/// The flattening of `items` under the mapper `M`: the concatenation
/// `M::map_spec(items[0]) + M::map_spec(items[1]) + ...`, in order.
pub open spec fn flatten_all<A, M: Mapper<A>>(items: Seq<A>) -> Seq<
    <M::Inner as PullIterator>::Item,
>
    decreases items.len(),
{
    if items.len() == 0 {
        Seq::empty()
    } else {
        M::map_spec(items[0]) + flatten_all::<A, M>(items.drop_first())
    }
}

/// Splitting the outer sequence splits the flattening: flattening a
/// concatenation of outer sequences concatenates their flattenings.
pub proof fn lemma_flatten_all_concat<A, M: Mapper<A>>(x: Seq<A>, y: Seq<A>)
    ensures
        flatten_all::<A, M>(x + y) == flatten_all::<A, M>(x) + flatten_all::<A, M>(y),
    decreases x.len(),
{
    if x.len() == 0 {
        assert(x + y =~= y);
        assert(flatten_all::<A, M>(x) + flatten_all::<A, M>(y) =~= flatten_all::<A, M>(y));
    } else {
        lemma_flatten_all_concat::<A, M>(x.drop_first(), y);
        assert((x + y).drop_first() =~= x.drop_first() + y);
        assert((x + y)[0] == x[0]);
        assert(flatten_all::<A, M>(x + y) =~= flatten_all::<A, M>(x) + flatten_all::<A, M>(y));
    }
}

/// Order preservation: the flattening under `M` is exactly "map each outer
/// item to its expansion, then concatenate the expansions in order", here
/// stated against the sequence library's own `flatten`.
pub proof fn lemma_flatten_all_is_map_then_flatten<A, M: Mapper<A>>(items: Seq<A>)
    ensures
        flatten_all::<A, M>(items) == items.map_values(|a: A| M::map_spec(a)).flatten(),
    decreases items.len(),
{
    let f = |a: A| M::map_spec(a);
    if items.len() == 0 {
        assert(items.map_values(f) =~= Seq::<Seq<<M::Inner as PullIterator>::Item>>::empty());
    } else {
        lemma_flatten_all_is_map_then_flatten::<A, M>(items.drop_first());
        assert(items.map_values(f).drop_first() =~= items.drop_first().map_values(f));
        assert(items.map_values(f).first() == f(items[0]));
    }
}

/// A single outer item flattens to its own expansion.
pub proof fn lemma_flatten_all_singleton<A, M: Mapper<A>>(x: A)
    ensures
        flatten_all::<A, M>(seq![x]) == M::map_spec(x),
{
    let rest = seq![x].drop_first();
    assert(rest.len() == 0);
    assert(flatten_all::<A, M>(rest) == Seq::<<M::Inner as PullIterator>::Item>::empty());
    assert(flatten_all::<A, M>(seq![x]) == M::map_spec(x) + flatten_all::<A, M>(rest));
    assert(M::map_spec(x) + flatten_all::<A, M>(rest) =~= M::map_spec(x));
}

/// Empty-subsequence transparency: an outer item whose expansion is empty
/// contributes nothing, wherever it stands; the flattening is the same as
/// with the item removed entirely.
pub proof fn lemma_empty_expansion_transparent<A, M: Mapper<A>>(
    prefix: Seq<A>,
    x: A,
    suffix: Seq<A>,
)
    requires
        M::map_spec(x).len() == 0,
    ensures
        flatten_all::<A, M>(prefix + seq![x] + suffix) == flatten_all::<A, M>(prefix + suffix),
{
    lemma_flatten_all_concat::<A, M>(prefix, seq![x]);
    lemma_flatten_all_concat::<A, M>(prefix + seq![x], suffix);
    lemma_flatten_all_concat::<A, M>(prefix, suffix);
    lemma_flatten_all_singleton::<A, M>(x);
    assert(flatten_all::<A, M>(seq![x]) =~= Seq::<<M::Inner as PullIterator>::Item>::empty());
    assert(flatten_all::<A, M>(prefix + seq![x] + suffix) =~= flatten_all::<A, M>(
        prefix + suffix,
    ));
}

/// Empty-subsequence transparency, all at once: dropping every outer item
/// whose expansion is empty leaves the flattening unchanged, however many
/// such items there are and wherever they stand.
pub proof fn lemma_flatten_all_skips_empty_expansions<A, M: Mapper<A>>(items: Seq<A>)
    ensures
        flatten_all::<A, M>(items) == flatten_all::<A, M>(
            items.filter(|a: A| M::map_spec(a).len() > 0),
        ),
    decreases items.len(),
{
    reveal(Seq::filter);
    let pred = |a: A| M::map_spec(a).len() > 0;
    if items.len() > 0 {
        let pre = items.drop_last();
        let x = items.last();
        lemma_flatten_all_skips_empty_expansions::<A, M>(pre);
        assert(items =~= pre + seq![x]);
        lemma_flatten_all_concat::<A, M>(pre, seq![x]);
        lemma_flatten_all_singleton::<A, M>(x);
        Seq::filter_distributes_over_add(pre, seq![x], pred);
        assert(seq![x].drop_last() =~= Seq::<A>::empty());
        assert(Seq::<A>::empty().filter(pred) == Seq::<A>::empty());
        if pred(x) {
            assert(seq![x].filter(pred) =~= seq![x]);
            lemma_flatten_all_concat::<A, M>(pre.filter(pred), seq![x]);
            assert(flatten_all::<A, M>(items) =~= flatten_all::<A, M>(items.filter(pred)));
        } else {
            assert(seq![x].filter(pred) == Seq::<A>::empty());
            assert(items.filter(pred) =~= pre.filter(pred));
            assert(flatten_all::<A, M>(items) =~= flatten_all::<A, M>(items.filter(pred)));
        }
    }
}

/// Idempotent exhaustion: once a pull has reported that nothing remains, a
/// further pull obeying the same contract must report the same, and the
/// state no longer changes.
pub proof fn lemma_exhaustion_terminal<I: PullIterator>(
    s0: I,
    s1: I,
    s2: I,
    r1: Option<I::Item>,
    r2: Option<I::Item>,
)
    requires
        pull_step(s0, s1, r1),
        r1 is None,
        pull_step(s1, s2, r2),
    ensures
        r2 is None,
        s2.remaining() == s1.remaining(),
{
}

} // verus!
