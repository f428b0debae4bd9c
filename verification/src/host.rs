//! The bridge to the dynamically typed host runtime: opaque handles to
//! host-managed values, conversion between native integers and dynamic
//! values, host-semantics addition, and the reduce entry points that take a
//! host-supplied callable and host-managed sequences.
//!
//! A handle of type `Bound<'py, T>` can only exist while the host's global
//! execution lock is held by the calling thread; the `'py` lifetime is the
//! scoped proof of that acquisition, so every operation below runs under the
//! lock for its full duration.

use vstd::prelude::*;

use crate::engine::ReduceError;
use crate::engine::lemma_fold_steps_empty;
use crate::engine::reduce_lenient;
use crate::engine::reduce_strict;
use pyo3::Bound;
use pyo3::PyErr;
use pyo3::Python;
use pyo3::conversion::IntoPyObject;
use pyo3::prelude::PyAnyMethods;
use pyo3::prelude::PyListMethods;
use pyo3::types::PyAny;
use pyo3::types::PyFunction;
use pyo3::types::PyList;

verus! {

/// pyo3's owned handle to a host object; its `'py` lifetime proves the
/// host's execution lock is held. Opaque here: a DynamicValue capability.
#[verifier::external_type_specification]
#[verifier::external_body]
#[verifier::reject_recursive_types(T)]
pub struct ExBound<'py, T>(Bound<'py, T>);

/// pyo3's type for a host object of unknown concrete type.
#[verifier::external_type_specification]
#[verifier::external_body]
pub struct ExPyAny(PyAny);

/// pyo3's type for a host function object (the caller-supplied combiner).
#[verifier::external_type_specification]
#[verifier::external_body]
pub struct ExPyFunction(PyFunction);

/// pyo3's type for a host list object (the host-owned sequence).
#[verifier::external_type_specification]
#[verifier::external_body]
pub struct ExPyList(PyList);

/// pyo3's type for a failure raised by host code; carried through unchanged
/// so the original cause is never lost.
#[verifier::external_type_specification]
#[verifier::external_body]
pub struct ExPyErr(PyErr);

/// pyo3's zero-sized token whose `'py` lifetime scopes a held execution
/// lock; needed to create new host objects.
#[verifier::external_type_specification]
#[verifier::external_body]
pub struct ExPython<'py>(Python<'py>);

/// Why a native-numeric bridging call failed.
pub enum BridgeError {
    /// The dynamic value could not be represented in the fixed-width unsigned
    /// native slot (negative, too large, or not an integer at all); the
    /// failure the host raised is carried unchanged.
    TypeMismatch(PyErr),
}

/// Relies on pyo3's `PyAnyMethods::add`: Python-level `a + b`, evaluated by
/// the host's own addition semantics (including its type coercion), which
/// either produces a value or raises, e.g. a `TypeError` for a non-addable
/// pair. Nothing can be promised of the outcome: it depends on the
/// host-managed objects behind the handles.
#[verifier::external_body]
pub fn add_dynamic<'py>(a: &Bound<'py, PyAny>, b: &Bound<'py, PyAny>) -> Result<
    Bound<'py, PyAny>,
    PyErr,
> {
    a.add(b)
}

/// Relies on pyo3's `IntoPyObject` for `u64`: builds the host integer object
/// for `n`; the conversion is infallible on the host side.
#[verifier::external_body]
pub fn to_dynamic<'py>(py: Python<'py>, n: u64) -> Bound<'py, PyAny> {
    match n.into_pyobject(py) {
        Ok(v) => v.into_any(),
        Err(e) => match e {},
    }
}

/// Relies on pyo3's `PyAnyMethods::extract` for `u64`: reads the dynamic
/// value back as a fixed-width unsigned integer, raising (not truncating) on
/// negative or out-of-range input, or on a value that is not an integer.
#[verifier::external_body]
fn extract_native<'py>(v: &Bound<'py, PyAny>) -> Result<u64, PyErr> {
    v.extract::<u64>()
}

/// Convert a dynamic value to a native unsigned integer. A value outside the
/// representable range is signalled as a `TypeMismatch` carrying the
/// host-raised failure unchanged, never silently truncated.
pub fn to_native<'py>(v: &Bound<'py, PyAny>) -> (r: Result<u64, BridgeError>)
    ensures
        r matches Err(e) ==> e is TypeMismatch,
{
    match extract_native(v) {
        Ok(n) => Ok(n),
        Err(e) => Err(BridgeError::TypeMismatch(e)),
    }
}

/// Relies on pyo3's `PyAnyMethods::call1`: invokes the host callable with two
/// positional arguments and returns whatever the call produced, or the
/// failure it raised, unchanged. Nothing can be promised of the outcome: the
/// callable is arbitrary host code.
#[verifier::external_body]
fn call_binary<'py>(f: &Bound<'py, PyFunction>, a: Bound<'py, PyAny>, b: Bound<'py, PyAny>) -> Result<
    Bound<'py, PyAny>,
    PyErr,
> {
    f.call1((a, b))
}

/// Relies on pyo3's `PyListMethods::iter`: hands out the elements of the host
/// list, in list order, as a native vector of handles.
#[verifier::external_body]
fn list_elements<'py>(list: &Bound<'py, PyList>) -> Vec<Bound<'py, PyAny>> {
    list.iter().collect()
}

/// Strict-policy reduce over host-managed dynamic values: fold the sequence
/// left to right with the host-supplied callable `f`. Empty input is an
/// `EmptySequence` error; a failure raised by `f` aborts the fold at once and
/// is propagated unchanged as `CallableFailure`. A single element is returned
/// as it is, with no invocation of `f`.
pub fn reduce_dynamic_strict<'py>(
    f: &Bound<'py, PyFunction>,
    items: Vec<Bound<'py, PyAny>>,
) -> (r: Result<Bound<'py, PyAny>, ReduceError<PyErr>>)
    ensures
        items@.len() == 0 <==> (r matches Err(e) && e is EmptySequence),
        items@.len() == 1 ==> (r matches Ok(v) && v == items@[0]),
        (r matches Err(e) && e is CallableFailure) ==> items@.len() >= 2,
{
    let step = |acc: Bound<'py, PyAny>, x: Bound<'py, PyAny>| -> (res: Result<
        Bound<'py, PyAny>,
        PyErr,
    >) { call_binary(f, acc, x) };
    let ghost s = items@;
    let r = reduce_strict(step, items);
    proof {
        if s.len() == 1 {
            assert(s.skip(1) =~= Seq::<Bound<'py, PyAny>>::empty());
            if r is Err {
                let e = r->Err_0;
                if e is CallableFailure {
                    lemma_fold_steps_empty(
                        step,
                        s[0],
                        s.skip(1),
                        Err::<Bound<'py, PyAny>, PyErr>(e->CallableFailure_0),
                    );
                }
                assert(false);
            } else {
                lemma_fold_steps_empty(
                    step,
                    s[0],
                    s.skip(1),
                    Ok::<Bound<'py, PyAny>, PyErr>(r->Ok_0),
                );
            }
        }
    }
    r
}

/// Lenient-policy reduce over host-managed dynamic values: as
/// [`reduce_dynamic_strict`], but empty input yields the explicit absent
/// value `Ok(None)` instead of an error.
pub fn reduce_dynamic<'py>(f: &Bound<'py, PyFunction>, items: Vec<Bound<'py, PyAny>>) -> (r: Result<
    Option<Bound<'py, PyAny>>,
    PyErr,
>)
    ensures
        items@.len() == 0 <==> r == Ok::<Option<Bound<'py, PyAny>>, PyErr>(None),
        items@.len() == 1 ==> (r matches Ok(o) && o matches Some(v) && v == items@[0]),
        r is Err ==> items@.len() >= 2,
{
    let step = |acc: Bound<'py, PyAny>, x: Bound<'py, PyAny>| -> (res: Result<
        Bound<'py, PyAny>,
        PyErr,
    >) { call_binary(f, acc, x) };
    let ghost s = items@;
    let r = reduce_lenient(step, items);
    proof {
        if s.len() == 1 {
            assert(s.skip(1) =~= Seq::<Bound<'py, PyAny>>::empty());
            if r is Err {
                lemma_fold_steps_empty(
                    step,
                    s[0],
                    s.skip(1),
                    Err::<Bound<'py, PyAny>, PyErr>(r->Err_0),
                );
                assert(false);
            } else {
                if r->Ok_0 is Some {
                    lemma_fold_steps_empty(
                        step,
                        s[0],
                        s.skip(1),
                        Ok::<Bound<'py, PyAny>, PyErr>(r->Ok_0->Some_0),
                    );
                }
            }
        }
    }
    r
}

/// Lenient-policy reduce taken directly from a host list, as the host
/// boundary hands it over: the elements are read out of the list in list
/// order and folded with the callable. What the fold returns is pinned by
/// [`reduce_dynamic`] in terms of the elements read; the reading itself is
/// host work about which nothing more can be stated.
pub fn reduce_list<'py>(f: &Bound<'py, PyFunction>, list: &Bound<'py, PyList>) -> Result<
    Option<Bound<'py, PyAny>>,
    PyErr,
> {
    let items = list_elements(list);
    reduce_dynamic(f, items)
}

} // verus!
