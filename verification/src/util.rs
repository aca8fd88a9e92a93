//! Misc utilities for Hydra
use vstd::prelude::*;

verus! {

/// What came of calling a function on items in order, once each: the state of affairs after each
/// call, and what the call returned.
pub struct Calls<C, R> {
    pub states: Seq<C>,
    pub results: Seq<R>,
}

impl<C, R> Calls<C, R> {
    /// The number of calls.
    pub open spec fn len(self) -> nat {
        self.results.len()
    }

    /// The state of affairs before the call with the given number, or after the last.
    pub open spec fn before(self, start: C, i: int) -> C {
        if i == 0 {
            start
        } else {
            self.states[i - 1]
        }
    }
}

/// Whether the calls are calls of a function on the first of the given items, one after the other.
pub open spec fn calls_on<A, C, R, F: Fn(C, &A) -> (C, R)>(
    f: F,
    items: Seq<A>,
    start: C,
    calls: Calls<C, R>,
) -> bool {
    &&& calls.states.len() == calls.results.len() <= items.len()
    &&& forall|i: int|
        0 <= i < calls.results.len() ==> call_ensures(
            f,
            (calls.before(start, i), &items[i]),
            (calls.states[i], #[trigger] calls.results[i]),
        )
}

/// Whether the calls ended in the given way: with the first success; without one, all items were
/// tried, and the last failure is the result; without an item, it is the error given for that case.
pub open spec fn search_ends<C, T, E>(
    items: nat,
    calls: Calls<C, Result<T, E>>,
    unresolved: E,
    result: Result<T, E>,
) -> bool {
    &&& forall|i: int| 0 <= i < calls.len() - 1 ==> (#[trigger] calls.results[i]) is Err
    &&& match result {
        Ok(_) => calls.len() > 0 && calls.results.last() == result,
        Err(err) => calls.len() == items && if items == 0 {
            err == unresolved
        } else {
            calls.results.last() == result
        },
    }
}

/// Whether a search for the first success made the given calls.
pub open spec fn searched<A, C, T, E, F: Fn(C, &A) -> (C, Result<T, E>)>(
    f: F,
    items: Seq<A>,
    start: C,
    unresolved: E,
    calls: Calls<C, Result<T, E>>,
    last: C,
    result: Result<T, E>,
) -> bool {
    &&& calls_on(f, items, start, calls)
    &&& last == calls.before(start, calls.len() as int)
    &&& search_ends(items.len(), calls, unresolved, result)
}

/// Run F for each addr
///
/// The first success ends the search. Without one, the last failure is the result; without an
/// address, it is the error given for that case. F is called on the addresses in order, once each,
/// and on none after the first success. It is handed what it returned the last time, which starts
/// as `state` and is returned in the end.
pub fn each_addr<A, C, T, E, F>(addrs: &Vec<A>, state: C, f: F, unresolved: E) -> (outcome: (
    C,
    Result<T, E>,
)) where F: Fn(C, &A) -> (C, Result<T, E>)

    requires
        forall|c: C, i: int|
            0 <= i < addrs@.len() ==> call_requires(f, (c, &#[trigger] addrs@[i])),
    ensures
        exists|calls: Calls<C, Result<T, E>>| #[trigger]
            searched(f, addrs@, state, unresolved, calls, outcome.0, outcome.1),
{
    let ghost mut calls: Calls<C, Result<T, E>> = Calls {
        states: Seq::empty(),
        results: Seq::empty(),
    };
    let mut current = state;
    let mut last_err = unresolved;
    let mut i: usize = 0;
    while i < addrs.len()
        invariant
            i <= addrs@.len(),
            forall|c: C, k: int|
                0 <= k < addrs@.len() ==> call_requires(f, (c, &#[trigger] addrs@[k])),
            calls_on(f, addrs@, state, calls),
            calls.len() == i,
            current == calls.before(state, i as int),
            forall|k: int| 0 <= k < i ==> (#[trigger] calls.results[k]) is Err,
            if i == 0 {
                last_err == unresolved
            } else {
                calls.results.last() == Err::<T, E>(last_err)
            },
        decreases addrs@.len() - i,
    {
        let ghost so_far = calls;
        let (next, result) = f(current, &addrs[i]);
        proof {
            calls = Calls {
                states: so_far.states.push(next),
                results: so_far.results.push(result),
            };
            assert forall|k: int| 0 <= k < calls.results.len() implies call_ensures(
                f,
                (calls.before(state, k), &addrs@[k]),
                (calls.states[k], #[trigger] calls.results[k]),
            ) by {
                if k < i {
                    assert(calls.results[k] == so_far.results[k]);
                    assert(calls.before(state, k) == so_far.before(state, k));
                } else {
                    assert(calls.before(state, k) == so_far.before(state, i as int));
                }
            }
        }
        current = next;
        match result {
            Ok(value) => {
                assert(searched(f, addrs@, state, unresolved, calls, current, Ok::<T, E>(value)));
                return (current, Ok(value));
            },
            Err(err) => {
                last_err = err;
            },
        }
        i = i + 1;
    }
    let outcome = (current, Err(last_err));
    assert(searched(f, addrs@, state, unresolved, calls, outcome.0, outcome.1));
    outcome
}

} // verus!
