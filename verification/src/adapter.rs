use crate::lazy::{flatten_all, pull_step, Mapper, PullIterator};
use vstd::prelude::*;

verus! {

/// Flattens, lazily, the inner sequences produced by mapping each item of an
/// outer sequence: all items of the first expansion, then all items of the
/// second, and so on. At most one inner sequence is active at a time, and the
/// mapper runs only when a new inner sequence is needed.
#[verifier::reject_recursive_types(U)]
pub struct FlatMap<O, F, U> where
    O: PullIterator,
    U: PullIterator,
    F: Mapper<O::Item, Inner = U>,
{
    outer: O,
    mapped: Option<U>,
    mapper: F,
    calls: Ghost<nat>,
}

impl<O, F, U> FlatMap<O, F, U> where
    O: PullIterator,
    U: PullIterator,
    F: Mapper<O::Item, Inner = U>,
{
    /// The items the active inner sequence, if any, has yet to yield.
    pub closed spec fn inner_rem(&self) -> Seq<U::Item> {
        match self.mapped {
            Some(inner) => inner.remaining(),
            None => Seq::empty(),
        }
    }

    /// The outer items not yet consumed.
    pub closed spec fn outer_rem(&self) -> Seq<O::Item> {
        self.outer.remaining()
    }

    /// How often the mapper has been invoked so far.
    pub closed spec fn mapper_calls(&self) -> nat {
        self.calls@
    }

    /// Wraps an outer sequence and a mapper. Nothing is pulled and the mapper
    /// is not invoked yet: the outer sequence is still whole, no inner
    /// sequence is active, and everything the expansions hold is still owed.
    pub fn new(iterator: O, f: F) -> (r: Self)
        ensures
            r.remaining() == flatten_all::<O::Item, F>(iterator.remaining()),
            r.outer_rem() == iterator.remaining(),
            r.inner_rem() == Seq::<U::Item>::empty(),
            r.mapper_calls() == 0,
    {
        let r = Self { outer: iterator, mapped: None, mapper: f, calls: Ghost(0nat) };
        proof {
            assert(r.remaining() =~= flatten_all::<O::Item, F>(r.outer.remaining()));
        }
        r
    }
}

/// Builds the adapter without naming its type.
pub fn flat_map<O, F, U>(i: O, f: F) -> (r: FlatMap<O, F, U>) where
    O: PullIterator,
    U: PullIterator,
    F: Mapper<O::Item, Inner = U>,

    ensures
        r.remaining() == flatten_all::<O::Item, F>(i.remaining()),
        r.outer_rem() == i.remaining(),
        r.inner_rem() == Seq::<U::Item>::empty(),
        r.mapper_calls() == 0,
{
    FlatMap::new(i, f)
}

impl<O, F, U> PullIterator for FlatMap<O, F, U> where
    O: PullIterator,
    U: PullIterator,
    F: Mapper<O::Item, Inner = U>,
{
    type Item = U::Item;

    /// What the adapter has yet to yield: the rest of the active inner
    /// sequence, then the expansions of the outer items not yet consumed,
    /// in order.
    closed spec fn remaining(&self) -> Seq<U::Item> {
        self.inner_rem() + flatten_all::<O::Item, F>(self.outer_rem())
    }

    /// Pulls the next flattened item. Besides the pull contract itself, the
    /// clauses below say how little work is done: outer items are consumed
    /// from the front only, the mapper runs exactly once per consumed outer
    /// item, nothing is consumed while the active inner sequence can still
    /// supply, and of the items consumed for one yielded result all but the
    /// last map to empty expansions.
    #[verifier::loop_isolation(false)]
    fn next(&mut self) -> (r: Option<U::Item>)
        ensures
            final(self).outer_rem().len() <= old(self).outer_rem().len(),
            final(self).outer_rem() == old(self).outer_rem().skip(
                old(self).outer_rem().len() - final(self).outer_rem().len(),
            ),
            final(self).mapper_calls() == old(self).mapper_calls() + old(self).outer_rem().len()
                - final(self).outer_rem().len(),
            match r {
                Some(_) => {
                    &&& (old(self).inner_rem().len() > 0 ==> final(self).outer_rem() == old(self).outer_rem())
                    &&& forall|i: int|
                        0 <= i < old(self).outer_rem().len() - final(self).outer_rem().len() - 1
                            ==> #[trigger] F::map_spec(old(self).outer_rem()[i]).len() == 0
                    &&& old(self).outer_rem().len() > final(self).outer_rem().len()
                        ==> F::map_spec(
                            old(self).outer_rem()[old(self).outer_rem().len() - final(self).outer_rem().len() - 1],
                        ).len() > 0
                },
                None => final(self).outer_rem().len() == 0,
            },
    {
        loop
            invariant
                self.remaining() == old(self).remaining(),
                self.outer_rem().len() <= old(self).outer_rem().len(),
                self.outer_rem() == old(self).outer_rem().skip(
                    old(self).outer_rem().len() - self.outer_rem().len(),
                ),
                self.mapper_calls() == old(self).mapper_calls() + old(self).outer_rem().len()
                    - self.outer_rem().len(),
                self.outer_rem().len() == old(self).outer_rem().len() ==> self.inner_rem() == old(self).inner_rem(),
                self.outer_rem().len() < old(self).outer_rem().len() ==> {
                    &&& old(self).inner_rem().len() == 0
                    &&& forall|i: int|
                        0 <= i < old(self).outer_rem().len() - self.outer_rem().len() - 1
                            ==> #[trigger] F::map_spec(old(self).outer_rem()[i]).len() == 0
                    &&& self.inner_rem() == F::map_spec(
                        old(self).outer_rem()[old(self).outer_rem().len() - self.outer_rem().len()
                            - 1],
                    )
                },
            decreases self.outer_rem().len(),
        {
            let ghost head = *self;
            let cur = self.mapped.take();
            match cur {
                Some(mut inner) => {
                    let ghost inner_pre = inner;
                    match inner.next() {
                        Some(x) => {
                            self.mapped = Some(inner);
                            proof {
                                assert(head.remaining()[0] == inner_pre.remaining()[0]);
                                assert(self.remaining() =~= head.remaining().drop_first());
                                assert(head.outer_rem().skip(0) =~= head.outer_rem());
                            }
                            return Some(x);
                        },
                        None => {},
                    }
                },
                None => {},
            }
            // No inner sequence is active (any exhausted one was just
            // discarded): consume the next outer item, or finish for good.
            let ghost drained = *self;
            match self.outer.next() {
                Some(o) => {
                    let inner = self.mapper.map(o);
                    self.mapped = Some(inner);
                    self.calls = Ghost(self.calls@ + 1);
                    proof {
                        let pre = old(self).outer_rem();
                        let k = pre.len() - drained.outer_rem().len();
                        assert(drained.outer_rem()[0] == pre[k]);
                        assert(drained.outer_rem().drop_first() =~= pre.skip(k + 1));
                        assert(drained.remaining() =~= flatten_all::<O::Item, F>(
                            drained.outer_rem(),
                        ));
                        assert(self.remaining() =~= drained.remaining());
                    }
                },
                None => {
                    proof {
                        assert(self.remaining() =~= head.remaining());
                        assert(self.remaining() =~= Seq::<U::Item>::empty());
                    }
                    return None;
                },
            }
        }
    }
}

/// Over an empty outer sequence a fresh adapter, one with no active inner
/// sequence, has nothing to yield: its first pull must already report
/// exhaustion, whatever the mapper would have produced.
pub proof fn lemma_empty_outer_exhausts<O, F, U>(
    pre: FlatMap<O, F, U>,
    post: FlatMap<O, F, U>,
    r: Option<U::Item>,
) where
    O: PullIterator,
    U: PullIterator,
    F: Mapper<O::Item, Inner = U>,

    requires
        pre.inner_rem().len() == 0,
        pre.outer_rem().len() == 0,
        pull_step(pre, post, r),
    ensures
        r is None,
{
    assert(pre.remaining() =~= Seq::<U::Item>::empty());
}

} // verus!
