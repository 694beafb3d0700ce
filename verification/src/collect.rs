//! Reading the items of a sequence one after the other, up to the first
//! item that is refused.

use vstd::prelude::*;

verus! {

/// Item `k` is refused and every item before it is accepted. `read` says
/// how an item is read: its place and the item give a value or an error.
pub open spec fn first_refused<I, A, E>(
    items: Seq<I>,
    read: spec_fn(int, I) -> Result<A, E>,
    k: int,
) -> bool {
    &&& 0 <= k < items.len()
    &&& read(k, items[k]) is Err
    &&& forall|i: int| 0 <= i < k ==> (#[trigger] read(i, items[i])) is Ok
}

/// The values of all items, or the error of the first item that is refused.
pub open spec fn read_all<I, A, E>(items: Seq<I>, read: spec_fn(int, I) -> Result<A, E>) -> Result<
    Seq<A>,
    E,
> {
    if exists|k: int| first_refused(items, read, k) {
        let k = choose|k: int| first_refused(items, read, k);
        Err(read(k, items[k])->Err_0)
    } else {
        Ok(Seq::new(items.len(), |i: int| read(i, items[i])->Ok_0))
    }
}

/// The first refused item decides.
pub proof fn lemma_read_all_refused<I, A, E>(
    items: Seq<I>,
    read: spec_fn(int, I) -> Result<A, E>,
    k: int,
)
    requires
        first_refused(items, read, k),
    ensures
        read_all(items, read) == Err::<Seq<A>, E>(read(k, items[k])->Err_0),
{
    let j = choose|j: int| first_refused(items, read, j);
    if j < k {
        assert(read(j, items[j]) is Ok);
    } else if k < j {
        assert(read(k, items[k]) is Ok);
    }
}

/// With every item accepted, the values of all items are the result.
pub proof fn lemma_read_all_accepted<I, A, E>(
    items: Seq<I>,
    read: spec_fn(int, I) -> Result<A, E>,
    values: Seq<A>,
)
    requires
        values.len() == items.len(),
        forall|i: int|
            0 <= i < items.len() ==> (#[trigger] read(i, items[i])) == Ok::<A, E>(values[i]),
    ensures
        read_all(items, read) == Ok::<Seq<A>, E>(values),
{
    assert forall|k: int| !first_refused(items, read, k) by {
        if 0 <= k < items.len() {
            assert(read(k, items[k]) is Ok);
        }
    }
    assert(values =~= Seq::new(items.len(), |i: int| read(i, items[i])->Ok_0));
}

/// The sequences one after the other.
pub open spec fn concat_all<A>(groups: Seq<Seq<A>>) -> Seq<A>
    decreases groups.len(),
{
    if groups.len() == 0 {
        Seq::empty()
    } else {
        concat_all(groups.drop_last()) + groups.last()
    }
}

/// Without a refused item, the first `k` items are accepted.
proof fn lemma_accepted_up_to<I, A, E>(
    items: Seq<I>,
    read: spec_fn(int, I) -> Result<A, E>,
    k: int,
)
    requires
        read_all(items, read) is Ok,
        0 <= k <= items.len(),
    ensures
        forall|i: int| 0 <= i < k ==> (#[trigger] read(i, items[i])) is Ok,
    decreases k,
{
    if k > 0 {
        lemma_accepted_up_to(items, read, k - 1);
        if read(k - 1, items[k - 1]) is Err {
            assert(first_refused(items, read, k - 1));
        }
    }
}

/// When all items are read, each of them was accepted, and the values stand
/// in the order of the items.
pub proof fn lemma_read_all_values<I, A, E>(items: Seq<I>, read: spec_fn(int, I) -> Result<A, E>)
    requires
        read_all(items, read) is Ok,
    ensures
        read_all(items, read)->Ok_0.len() == items.len(),
        forall|i: int|
            0 <= i < items.len() ==> (#[trigger] read(i, items[i])) == Ok::<A, E>(
                read_all(items, read)->Ok_0[i],
            ),
{
    lemma_accepted_up_to(items, read, items.len() as int);
    assert forall|i: int| 0 <= i < items.len() implies (#[trigger] read(i, items[i])) == Ok::<
        A,
        E,
    >(read_all(items, read)->Ok_0[i]) by {
        assert(read(i, items[i]) is Ok);
    }
}

} // verus!
