//! The reduce engine: a strictly sequential, order-sensitive left-fold of a
//! caller-supplied combining function over a finite sequence.
//!
//! Three empty-input policies are exposed as separately named entry points:
//! [`reduce_strict`] signals an error on empty input, [`reduce_lenient`]
//! returns an explicit absent value, and [`reduce_with_identity`] falls back
//! to a caller-supplied identity element.

use vstd::prelude::*;

verus! {

/// Why a strict reduce call failed.
#[derive(Debug, PartialEq, Eq)]
pub enum ReduceError<E> {
    /// The input sequence was empty: zero-length input cannot be reduced
    /// under the strict policy.
    EmptySequence,
    /// The combining function itself failed on some invocation; the payload
    /// it raised is carried here unchanged.
    CallableFailure(E),
}

/// Holds when running the fallible combiner `f` left to right, starting from
/// accumulator `acc` over the remaining elements `rest`, can produce `out`:
/// either `Ok` with the final accumulator after the last element, or `Err`
/// with the payload of the first failing invocation, after which no further
/// element is combined.
pub open spec fn fold_steps_rel<T, E, F: Fn(T, T) -> Result<T, E>>(
    f: F,
    acc: T,
    rest: Seq<T>,
    out: Result<T, E>,
) -> bool
    decreases rest.len(),
{
    if rest.len() == 0 {
        out == Ok::<T, E>(acc)
    } else {
        exists|step: Result<T, E>|
            #[trigger] call_ensures(f, (acc, rest[0]), step) && match step {
                Ok(next) => fold_steps_rel(f, next, rest.skip(1), out),
                Err(e) => out == Err::<T, E>(e),
            }
    }
}

/// Holds when running the total combiner `f` left to right, starting from
/// accumulator `acc` over the remaining elements `rest`, can produce the
/// final accumulator `out`.
pub open spec fn fold_total_rel<T, F: Fn(T, T) -> T>(f: F, acc: T, rest: Seq<T>, out: T) -> bool
    decreases rest.len(),
{
    if rest.len() == 0 {
        out == acc
    } else {
        exists|next: T|
            #[trigger] call_ensures(f, (acc, rest[0]), next) && fold_total_rel(
                f,
                next,
                rest.skip(1),
                out,
            )
    }
}

/// The mathematical left-fold of a fallible function `g`: combine strictly in
/// sequence order, stopping at the first failure.
pub open spec fn fold_left_result<T, E>(
    g: spec_fn(T, T) -> Result<T, E>,
    acc: T,
    rest: Seq<T>,
) -> Result<T, E>
    decreases rest.len(),
{
    if rest.len() == 0 {
        Ok(acc)
    } else {
        match g(acc, rest[0]) {
            Ok(next) => fold_left_result(g, next, rest.skip(1)),
            Err(e) => Err(e),
        }
    }
}

/// The mathematical left-fold of a total function `g` in sequence order.
pub open spec fn fold_left_total<T>(g: spec_fn(T, T) -> T, acc: T, rest: Seq<T>) -> T
    decreases rest.len(),
{
    if rest.len() == 0 {
        acc
    } else {
        fold_left_total(g, g(acc, rest[0]), rest.skip(1))
    }
}

proof fn lemma_fold_steps_extend<T, E, F: Fn(T, T) -> Result<T, E>>(
    f: F,
    acc: T,
    rest: Seq<T>,
    mid: T,
    x: T,
    step: Result<T, E>,
)
    requires
        fold_steps_rel(f, acc, rest, Ok::<T, E>(mid)),
        call_ensures(f, (mid, x), step),
    ensures
        fold_steps_rel(f, acc, rest.push(x), step),
    decreases rest.len(),
{
    if rest.len() == 0 {
        assert(acc == mid);
        assert(rest.push(x)[0] == x);
        assert(rest.push(x).skip(1) =~= Seq::<T>::empty());
        assert(call_ensures(f, (acc, rest.push(x)[0]), step));
        match step {
            Ok(n) => {
                assert(fold_steps_rel(f, n, rest.push(x).skip(1), Ok::<T, E>(n)));
            },
            Err(_) => {},
        }
        assert(fold_steps_rel(f, acc, rest.push(x), step));
    } else {
        let first = choose|s: Result<T, E>|
            #[trigger] call_ensures(f, (acc, rest[0]), s) && match s {
                Ok(next) => fold_steps_rel(f, next, rest.skip(1), Ok::<T, E>(mid)),
                Err(e) => Ok::<T, E>(mid) == Err::<T, E>(e),
            };
        match first {
            Ok(next) => {
                lemma_fold_steps_extend(f, next, rest.skip(1), mid, x, step);
                assert(rest.push(x)[0] == rest[0]);
                assert(rest.push(x).skip(1) =~= rest.skip(1).push(x));
                assert(call_ensures(f, (acc, rest.push(x)[0]), first));
                assert(fold_steps_rel(f, next, rest.push(x).skip(1), step));
                assert(fold_steps_rel(f, acc, rest.push(x), step));
            },
            Err(_) => {
                assert(false);
            },
        }
    }
}

proof fn lemma_fold_total_extend<T, F: Fn(T, T) -> T>(
    f: F,
    acc: T,
    rest: Seq<T>,
    mid: T,
    x: T,
    next: T,
)
    requires
        fold_total_rel(f, acc, rest, mid),
        call_ensures(f, (mid, x), next),
    ensures
        fold_total_rel(f, acc, rest.push(x), next),
    decreases rest.len(),
{
    if rest.len() == 0 {
        assert(acc == mid);
        assert(rest.push(x)[0] == x);
        assert(rest.push(x).skip(1) =~= Seq::<T>::empty());
        assert(call_ensures(f, (acc, rest.push(x)[0]), next));
        assert(fold_total_rel(f, next, rest.push(x).skip(1), next));
        assert(fold_total_rel(f, acc, rest.push(x), next));
    } else {
        let second = choose|n: T|
            #[trigger] call_ensures(f, (acc, rest[0]), n) && fold_total_rel(
                f,
                n,
                rest.skip(1),
                mid,
            );
        lemma_fold_total_extend(f, second, rest.skip(1), mid, x, next);
        assert(rest.push(x)[0] == rest[0]);
        assert(rest.push(x).skip(1) =~= rest.skip(1).push(x));
        assert(call_ensures(f, (acc, rest.push(x)[0]), second));
        assert(fold_total_rel(f, second, rest.push(x).skip(1), next));
        assert(fold_total_rel(f, acc, rest.push(x), next));
    }
}

proof fn lemma_fold_steps_err_extend<T, E, F: Fn(T, T) -> Result<T, E>>(
    f: F,
    seed: T,
    full: Seq<T>,
    m: int,
    e: E,
)
    requires
        0 <= m <= full.len(),
        fold_steps_rel(f, seed, full.take(m), Err::<T, E>(e)),
    ensures
        fold_steps_rel(f, seed, full, Err::<T, E>(e)),
    decreases m,
{
    let prefix = full.take(m);
    if m == 0 {
        assert(false);
    } else {
        let step = choose|s: Result<T, E>|
            #[trigger] call_ensures(f, (seed, prefix[0]), s) && match s {
                Ok(next) => fold_steps_rel(f, next, prefix.skip(1), Err::<T, E>(e)),
                Err(e2) => Err::<T, E>(e) == Err::<T, E>(e2),
            };
        assert(prefix[0] == full[0]);
        match step {
            Ok(next) => {
                assert(prefix.skip(1) =~= full.skip(1).take(m - 1));
                lemma_fold_steps_err_extend(f, next, full.skip(1), m - 1, e);
                assert(call_ensures(f, (seed, full[0]), step));
                assert(fold_steps_rel(f, seed, full, Err::<T, E>(e)));
            },
            Err(_) => {
                assert(call_ensures(f, (seed, full[0]), step));
                assert(fold_steps_rel(f, seed, full, Err::<T, E>(e)));
            },
        }
    }
}

/// Strict-policy reduce: seed the accumulator with the first element, then
/// combine each remaining element in original order with `f`. An empty input
/// is an `EmptySequence` error; a failure raised by `f` aborts the fold at
/// once and is propagated unchanged as `CallableFailure`.
pub fn reduce_strict<T, E, F: Fn(T, T) -> Result<T, E>>(f: F, items: Vec<T>) -> (r: Result<
    T,
    ReduceError<E>,
>)
    requires
        forall|a: T, b: T| #[trigger] call_requires(f, (a, b)),
    ensures
        items@.len() == 0 <==> (r matches Err(e) && e is EmptySequence),
        (match r {
            Ok(v) => items@.len() > 0 && fold_steps_rel(f, items@[0], items@.skip(1), Ok::<T, E>(v)),
            Err(ReduceError::CallableFailure(p)) => items@.len() > 0 && fold_steps_rel(
                f,
                items@[0],
                items@.skip(1),
                Err::<T, E>(p),
            ),
            Err(ReduceError::EmptySequence) => items@.len() == 0,
        }),
{
    let ghost s = items@;
    let mut rem = items;
    if rem.len() == 0 {
        return Err(ReduceError::EmptySequence);
    }
    let mut acc = rem.remove(0);
    proof {
        assert(rem@ =~= s.skip(1));
        assert(fold_steps_rel(f, s[0], s.subrange(1, 1), Ok::<T, E>(acc)));
    }
    let ghost mut i: int = 1;
    while rem.len() > 0
        invariant
            forall|a: T, b: T| #[trigger] call_requires(f, (a, b)),
            s == items@,
            1 <= i <= s.len(),
            rem@ == s.skip(i),
            fold_steps_rel(f, s[0], s.subrange(1, i), Ok::<T, E>(acc)),
        decreases rem@.len(),
    {
        let x = rem.remove(0);
        proof {
            assert(x == s.skip(i)[0]);
            assert(x == s[i]);
            assert(rem@ =~= s.skip(i + 1));
        }
        let ghost prev = acc;
        let step = f(acc, x);
        proof {
            lemma_fold_steps_extend(f, s[0], s.subrange(1, i), prev, x, step);
            assert(s.subrange(1, i).push(s[i]) =~= s.subrange(1, i + 1));
        }
        match step {
            Ok(next) => {
                acc = next;
                proof {
                    i = i + 1;
                }
            },
            Err(e) => {
                proof {
                    assert(s.subrange(1, i + 1) =~= s.skip(1).take(i));
                    lemma_fold_steps_err_extend(f, s[0], s.skip(1), i, e);
                }
                return Err(ReduceError::CallableFailure(e));
            },
        }
    }
    proof {
        assert(i == s.len());
        assert(s.subrange(1, s.len() as int) =~= s.skip(1));
    }
    Ok(acc)
}

/// Lenient-policy reduce: the same strictly sequential left-fold as
/// [`reduce_strict`], but an empty input yields an explicit absent value,
/// `Ok(None)`, instead of an error. A failure raised by `f` still aborts the
/// fold at once and is propagated unchanged.
pub fn reduce_lenient<T, E, F: Fn(T, T) -> Result<T, E>>(f: F, items: Vec<T>) -> (r: Result<
    Option<T>,
    E,
>)
    requires
        forall|a: T, b: T| #[trigger] call_requires(f, (a, b)),
    ensures
        items@.len() == 0 <==> r == Ok::<Option<T>, E>(None),
        (match r {
            Ok(Some(v)) => items@.len() > 0 && fold_steps_rel(
                f,
                items@[0],
                items@.skip(1),
                Ok::<T, E>(v),
            ),
            Ok(None) => items@.len() == 0,
            Err(e) => items@.len() > 0 && fold_steps_rel(f, items@[0], items@.skip(1), Err::<
                T,
                E,
            >(e)),
        }),
{
    match reduce_strict(f, items) {
        Ok(v) => Ok(Some(v)),
        Err(ReduceError::EmptySequence) => Ok(None),
        Err(ReduceError::CallableFailure(e)) => Err(e),
    }
}

/// Identity-element policy reduce for a total combiner: an empty input falls
/// back to the caller-supplied identity element; otherwise the accumulator is
/// seeded with the first element and each remaining element is combined in
/// original order. No failure path exists.
pub fn reduce_with_identity<T, F: Fn(T, T) -> T>(identity: T, f: F, items: Vec<T>) -> (r: T)
    requires
        forall|a: T, b: T| #[trigger] call_requires(f, (a, b)),
    ensures
        items@.len() == 0 ==> r == identity,
        items@.len() > 0 ==> fold_total_rel(f, items@[0], items@.skip(1), r),
{
    let ghost s = items@;
    let mut rem = items;
    if rem.len() == 0 {
        return identity;
    }
    let mut acc = rem.remove(0);
    proof {
        assert(rem@ =~= s.skip(1));
        assert(fold_total_rel(f, s[0], s.subrange(1, 1), acc));
    }
    let ghost mut i: int = 1;
    while rem.len() > 0
        invariant
            forall|a: T, b: T| #[trigger] call_requires(f, (a, b)),
            s == items@,
            1 <= i <= s.len(),
            rem@ == s.skip(i),
            fold_total_rel(f, s[0], s.subrange(1, i), acc),
        decreases rem@.len(),
    {
        let x = rem.remove(0);
        proof {
            assert(x == s.skip(i)[0]);
            assert(x == s[i]);
            assert(rem@ =~= s.skip(i + 1));
        }
        let ghost prev = acc;
        acc = f(acc, x);
        proof {
            lemma_fold_total_extend(f, s[0], s.subrange(1, i), prev, x, acc);
            assert(s.subrange(1, i).push(s[i]) =~= s.subrange(1, i + 1));
            i = i + 1;
        }
    }
    proof {
        assert(i == s.len());
        assert(s.subrange(1, s.len() as int) =~= s.skip(1));
    }
    acc
}

/// Over an empty remainder the fold relation admits exactly one outcome: the
/// seed itself, successfully.
pub proof fn lemma_fold_steps_empty<T, E, F: Fn(T, T) -> Result<T, E>>(
    f: F,
    seed: T,
    rest: Seq<T>,
    out: Result<T, E>,
)
    requires
        rest.len() == 0,
        fold_steps_rel(f, seed, rest, out),
    ensures
        out == Ok::<T, E>(seed),
{
}

/// Law: for a deterministic combiner, the fold relation pins the outcome
/// exactly. If every result that `f` can return on `(a, b)` equals `g(a, b)`,
/// then any outcome of the step relation equals the mathematical left-fold of
/// `g` in original sequence order, stopping at the first failure. Combined
/// with the contract of [`reduce_strict`] or [`reduce_lenient`], this says
/// that a reduce over a non-empty sequence returns
/// `g(g(g(s[0], s[1]), s[2])..., s[n-1])` when no invocation fails, and the
/// payload of the first failing invocation otherwise, with no invocation made
/// past the failing one.
pub proof fn lemma_fold_deterministic<T, E, F: Fn(T, T) -> Result<T, E>>(
    f: F,
    seed: T,
    rest: Seq<T>,
    out: Result<T, E>,
    g: spec_fn(T, T) -> Result<T, E>,
)
    requires
        fold_steps_rel(f, seed, rest, out),
        forall|a: T, b: T, r: Result<T, E>| #[trigger] call_ensures(f, (a, b), r) ==> r == g(a, b),
    ensures
        out == fold_left_result(g, seed, rest),
    decreases rest.len(),
{
    if rest.len() == 0 {
    } else {
        let step = choose|st: Result<T, E>|
            #[trigger] call_ensures(f, (seed, rest[0]), st) && match st {
                Ok(next) => fold_steps_rel(f, next, rest.skip(1), out),
                Err(e) => out == Err::<T, E>(e),
            };
        assert(step == g(seed, rest[0]));
        match step {
            Ok(next) => {
                lemma_fold_deterministic(f, next, rest.skip(1), out, g);
            },
            Err(_) => {},
        }
    }
}

/// Law: for a deterministic total combiner, the total fold relation pins the
/// outcome exactly: any outcome of the step relation equals the mathematical
/// left-fold of `g` in original sequence order.
pub proof fn lemma_fold_total_deterministic<T, F: Fn(T, T) -> T>(
    f: F,
    seed: T,
    rest: Seq<T>,
    out: T,
    g: spec_fn(T, T) -> T,
)
    requires
        fold_total_rel(f, seed, rest, out),
        forall|a: T, b: T, r: T| #[trigger] call_ensures(f, (a, b), r) ==> r == g(a, b),
    ensures
        out == fold_left_total(g, seed, rest),
    decreases rest.len(),
{
    if rest.len() == 0 {
    } else {
        let next = choose|n: T|
            #[trigger] call_ensures(f, (seed, rest[0]), n) && fold_total_rel(
                f,
                n,
                rest.skip(1),
                out,
            );
        assert(next == g(seed, rest[0]));
        lemma_fold_total_deterministic(f, next, rest.skip(1), out, g);
    }
}

/// Law: a combiner that cannot fail never yields a failing fold. If every
/// result that `f` can return is `Ok`, any outcome of the step relation is
/// `Ok` as well; with the contract of [`reduce_strict`], success is owed on
/// every non-empty input under such a combiner.
pub proof fn lemma_fold_never_fails<T, E, F: Fn(T, T) -> Result<T, E>>(
    f: F,
    seed: T,
    rest: Seq<T>,
    out: Result<T, E>,
)
    requires
        fold_steps_rel(f, seed, rest, out),
        forall|a: T, b: T, r: Result<T, E>| #[trigger] call_ensures(f, (a, b), r) ==> r is Ok,
    ensures
        out is Ok,
    decreases rest.len(),
{
    if rest.len() == 0 {
    } else {
        let step = choose|st: Result<T, E>|
            #[trigger] call_ensures(f, (seed, rest[0]), st) && match st {
                Ok(next) => fold_steps_rel(f, next, rest.skip(1), out),
                Err(e) => out == Err::<T, E>(e),
            };
        match step {
            Ok(next) => {
                lemma_fold_never_fails(f, next, rest.skip(1), out);
            },
            Err(_) => {
                assert(false);
            },
        }
    }
}

} // verus!
