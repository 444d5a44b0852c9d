//! The outcome of an operation that covers only a part of its inputs.
use vstd::prelude::*;

verus! {

/// The outcome of an operation that is not defined everywhere.
#[derive(Debug, PartialEq)]
pub enum Attempt<T, E> {
    /// The operation gave a result.
    Done(T),
    /// The operation reported an error.
    Failed(E),
    /// The input lies outside what the operation is defined on.
    Refused,
}

/// The outcome of an operation on a whole sequence, from that on its first element and that on
/// the rest.
pub open spec fn and_rest<T, E>(first: Attempt<T, E>, rest: Attempt<Seq<T>, E>) -> Attempt<
    Seq<T>,
    E,
> {
    match first {
        Attempt::Done(v) => after(seq![v], rest),
        Attempt::Failed(e) => Attempt::Failed(e),
        Attempt::Refused => Attempt::Refused,
    }
}

/// The outcome of an operation on a whole sequence, where its first elements gave `done` and
/// the rest gave `rest`.
pub open spec fn after<T, E>(done: Seq<T>, rest: Attempt<Seq<T>, E>) -> Attempt<Seq<T>, E> {
    match rest {
        Attempt::Done(s) => Attempt::Done(done + s),
        Attempt::Failed(e) => Attempt::Failed(e),
        Attempt::Refused => Attempt::Refused,
    }
}

/// Going on after one more element.
pub proof fn lemma_after_push<T, E>(done: Seq<T>, v: T, rest: Attempt<Seq<T>, E>)
    ensures
        after(done, after(seq![v], rest)) == after(done.push(v), rest),
{
    match rest {
        Attempt::Done(s) => {
            assert(done + (seq![v] + s) =~= done.push(v) + s);
        },
        _ => {},
    }
}

/// Going on from nothing.
pub proof fn lemma_after_nothing<T, E>(rest: Attempt<Seq<T>, E>)
    ensures
        after(Seq::<T>::empty(), rest) == rest,
{
    match rest {
        Attempt::Done(s) => {
            assert(Seq::<T>::empty() + s =~= s);
        },
        _ => {},
    }
}

/// Nothing left to do.
pub proof fn lemma_after_all<T, E>(done: Seq<T>)
    ensures
        after(done, Attempt::<Seq<T>, E>::Done(Seq::empty())) == Attempt::<Seq<T>, E>::Done(done),
{
    assert(done + Seq::<T>::empty() =~= done);
}

/// The outcome for a whole sequence is that of its elements: each of them gave its own result, in
/// the same place, or else the first that gave none decides.
pub open spec fn comes_of_each<T, E>(each: Seq<Attempt<T, E>>, whole: Attempt<Seq<T>, E>) -> bool {
    match whole {
        Attempt::Done(results) => results.len() == each.len() && forall|k: int|
            0 <= k < each.len() ==> (#[trigger] each[k]) == Attempt::<T, E>::Done(results[k]),
        Attempt::Failed(e) => exists|k: int|
            0 <= k < each.len() && (#[trigger] each[k]) == Attempt::<T, E>::Failed(e)
                && all_done_before(each, k),
        Attempt::Refused => exists|k: int|
            0 <= k < each.len() && (#[trigger] each[k]) is Refused && all_done_before(each, k),
    }
}

/// All elements before the `k`-th gave a result.
pub open spec fn all_done_before<T, E>(each: Seq<Attempt<T, E>>, k: int) -> bool {
    forall|j: int| 0 <= j < k ==> (#[trigger] each[j]) is Done
}

/// One more element in front.
pub proof fn lemma_comes_of_first<T, E>(
    first: Attempt<T, E>,
    each: Seq<Attempt<T, E>>,
    rest: Attempt<Seq<T>, E>,
)
    requires
        comes_of_each(each, rest),
    ensures
        comes_of_each(seq![first] + each, and_rest(first, rest)),
{
    let all = seq![first] + each;
    assert(all[0] == first);
    assert forall|k: int| 0 <= k < each.len() implies all[k + 1] == #[trigger] each[k] by {}
    match first {
        Attempt::Done(v) => match rest {
            Attempt::Done(results) => {
                let whole = seq![v] + results;
                assert forall|k: int| 0 <= k < all.len() implies (#[trigger] all[k]) == Attempt::<
                    T,
                    E,
                >::Done(whole[k]) by {
                    if k > 0 {
                        assert(all[k] == each[k - 1]);
                        assert(whole[k] == results[k - 1]);
                    }
                }
            },
            Attempt::Failed(e) => {
                let k = choose|k: int|
                    0 <= k < each.len() && (#[trigger] each[k]) == Attempt::<T, E>::Failed(e)
                        && all_done_before(each, k);
                assert(all[k + 1] == each[k]);
                assert(all_done_before(all, k + 1)) by {
                    assert forall|j: int| 0 <= j < k + 1 implies (#[trigger] all[j]) is Done by {
                        if j > 0 {
                            assert(all[j] == each[j - 1]);
                        }
                    }
                }
            },
            Attempt::Refused => {
                let k = choose|k: int|
                    0 <= k < each.len() && (#[trigger] each[k]) is Refused && all_done_before(
                        each,
                        k,
                    );
                assert(all[k + 1] == each[k]);
                assert(all_done_before(all, k + 1)) by {
                    assert forall|j: int| 0 <= j < k + 1 implies (#[trigger] all[j]) is Done by {
                        if j > 0 {
                            assert(all[j] == each[j - 1]);
                        }
                    }
                }
            },
        },
        _ => {
            assert(all_done_before(all, 0));
        },
    }
}

/// The result for a whole sequence is that of its elements: each of them gave its own, in the same
/// place, or else the first error decides.
pub open spec fn ok_of_each<T, E>(each: Seq<Result<T, E>>, whole: Result<Seq<T>, E>) -> bool {
    match whole {
        Ok(results) => results.len() == each.len() && forall|k: int|
            0 <= k < each.len() ==> (#[trigger] each[k]) == Ok::<T, E>(results[k]),
        Err(e) => exists|k: int|
            0 <= k < each.len() && (#[trigger] each[k]) == Err::<T, E>(e) && all_ok_before(
                each,
                k,
            ),
    }
}

/// All elements before the `k`-th gave a result.
pub open spec fn all_ok_before<T, E>(each: Seq<Result<T, E>>, k: int) -> bool {
    forall|j: int| 0 <= j < k ==> (#[trigger] each[j]) is Ok
}

/// One more element in front.
pub proof fn lemma_ok_of_first<T, E>(
    first: Result<T, E>,
    each: Seq<Result<T, E>>,
    rest: Result<Seq<T>, E>,
)
    requires
        ok_of_each(each, rest),
    ensures
        ok_of_each(seq![first] + each, ok_and_rest(first, rest)),
{
    let all = seq![first] + each;
    assert(all[0] == first);
    match first {
        Ok(v) => match rest {
            Ok(results) => {
                let whole = seq![v] + results;
                assert forall|k: int| 0 <= k < all.len() implies (#[trigger] all[k]) == Ok::<T, E>(
                    whole[k],
                ) by {
                    if k > 0 {
                        assert(all[k] == each[k - 1]);
                        assert(whole[k] == results[k - 1]);
                    }
                }
            },
            Err(e) => {
                let k = choose|k: int|
                    0 <= k < each.len() && (#[trigger] each[k]) == Err::<T, E>(e) && all_ok_before(
                        each,
                        k,
                    );
                assert(all[k + 1] == each[k]);
                assert(all_ok_before(all, k + 1)) by {
                    assert forall|j: int| 0 <= j < k + 1 implies (#[trigger] all[j]) is Ok by {
                        if j > 0 {
                            assert(all[j] == each[j - 1]);
                        }
                    }
                }
            },
        },
        Err(_) => {
            assert(all_ok_before(all, 0));
        },
    }
}

/// The result of an operation on a whole sequence, from that on its first element and that on
/// the rest.
pub open spec fn ok_and_rest<T, E>(first: Result<T, E>, rest: Result<Seq<T>, E>) -> Result<
    Seq<T>,
    E,
> {
    match first {
        Ok(v) => ok_after(seq![v], rest),
        Err(e) => Err(e),
    }
}

/// The result of an operation on a whole sequence, where its first elements gave `done` and the
/// rest gave `rest`.
pub open spec fn ok_after<T, E>(done: Seq<T>, rest: Result<Seq<T>, E>) -> Result<Seq<T>, E> {
    match rest {
        Ok(s) => Ok(done + s),
        Err(e) => Err(e),
    }
}

/// Going on after one more element.
pub proof fn lemma_ok_after_push<T, E>(done: Seq<T>, v: T, rest: Result<Seq<T>, E>)
    ensures
        ok_after(done, ok_after(seq![v], rest)) == ok_after(done.push(v), rest),
{
    match rest {
        Ok(s) => {
            assert(done + (seq![v] + s) =~= done.push(v) + s);
        },
        _ => {},
    }
}

/// Going on from nothing.
pub proof fn lemma_ok_after_nothing<T, E>(rest: Result<Seq<T>, E>)
    ensures
        ok_after(Seq::<T>::empty(), rest) == rest,
{
    match rest {
        Ok(s) => {
            assert(Seq::<T>::empty() + s =~= s);
        },
        _ => {},
    }
}

/// Nothing left to do.
pub proof fn lemma_ok_after_all<T, E>(done: Seq<T>)
    ensures
        ok_after(done, Ok::<Seq<T>, E>(Seq::empty())) == Ok::<Seq<T>, E>(done),
{
    assert(done + Seq::<T>::empty() =~= done);
}

} // verus!
