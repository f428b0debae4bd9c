// These tests run against a real embedded host interpreter: every dynamic
// value is created and read back through the bridge, and the reduce entry
// points invoke genuine host callables.

use pyo3::Python;
use pyo3::exceptions::PyTypeError;
use pyo3::exceptions::PyZeroDivisionError;
use pyo3::types::PyFunction;
use pyo3::types::PyList;
use rpy::engine::ReduceError;
use rpy::host::BridgeError;
use rpy::host::add_dynamic;
use rpy::host::reduce_dynamic;
use rpy::host::reduce_dynamic_strict;
use rpy::host::reduce_list;
use rpy::host::to_dynamic;
use rpy::host::to_native;

#[test]
fn dynamic_add_matches_native_sum() {
    Python::attach(|py| {
        let a = to_dynamic(py, 2);
        let b = to_dynamic(py, 3);
        let r = add_dynamic(&a, &b).unwrap();
        assert_eq!(to_native(&r).ok(), Some(5));
    });
}

#[test]
fn dynamic_add_non_addable_pair_fails_with_type_error() {
    Python::attach(|py| {
        let a = to_dynamic(py, 1);
        let b = py.eval(c"'abc'", None, None).unwrap();
        let r = add_dynamic(&a, &b);
        match r {
            Ok(_) => panic!("adding an integer and a string must fail"),
            Err(e) => assert!(e.is_instance_of::<PyTypeError>(py)),
        }
    });
}

#[test]
fn bridge_round_trip_preserves_value() {
    Python::attach(|py| {
        let v = to_dynamic(py, 7);
        assert_eq!(to_native(&v).ok(), Some(7));
        let big = to_dynamic(py, u64::MAX);
        assert_eq!(to_native(&big).ok(), Some(u64::MAX));
    });
}

#[test]
fn bridge_rejects_negative_value() {
    Python::attach(|py| {
        let v = py.eval(c"-5", None, None).unwrap();
        let r = to_native(&v);
        assert!(matches!(r, Err(BridgeError::TypeMismatch(_))));
    });
}

#[test]
fn bridge_rejects_non_integer_value() {
    Python::attach(|py| {
        let v = py.eval(c"'seven'", None, None).unwrap();
        let r = to_native(&v);
        assert!(matches!(r, Err(BridgeError::TypeMismatch(_))));
    });
}

#[test]
fn dynamic_reduce_sums_in_order() {
    Python::attach(|py| {
        let f = py
            .eval(c"lambda a, b: a + b", None, None)
            .unwrap()
            .cast_into::<PyFunction>()
            .unwrap();
        let items = vec![to_dynamic(py, 1), to_dynamic(py, 2), to_dynamic(py, 3)];
        let r = reduce_dynamic(&f, items).unwrap().unwrap();
        assert_eq!(to_native(&r).ok(), Some(6));
    });
}

#[test]
fn dynamic_reduce_is_order_sensitive() {
    Python::attach(|py| {
        let f = py
            .eval(c"lambda a, b: 10 * a + b", None, None)
            .unwrap()
            .cast_into::<PyFunction>()
            .unwrap();
        let items = vec![to_dynamic(py, 1), to_dynamic(py, 2), to_dynamic(py, 3)];
        let r = reduce_dynamic(&f, items).unwrap().unwrap();
        // ((1, 2), 3) left to right: (10 * 1 + 2) = 12, then 10 * 12 + 3
        assert_eq!(to_native(&r).ok(), Some(123));
    });
}

#[test]
fn dynamic_reduce_empty_is_absent_value() {
    Python::attach(|py| {
        let f = py
            .eval(c"lambda a, b: a + b", None, None)
            .unwrap()
            .cast_into::<PyFunction>()
            .unwrap();
        let r = reduce_dynamic(&f, Vec::new()).unwrap();
        assert!(r.is_none());
    });
}

#[test]
fn dynamic_reduce_strict_empty_is_empty_sequence_error() {
    Python::attach(|py| {
        let f = py
            .eval(c"lambda a, b: a + b", None, None)
            .unwrap()
            .cast_into::<PyFunction>()
            .unwrap();
        let r = reduce_dynamic_strict(&f, Vec::new());
        assert!(matches!(r, Err(ReduceError::EmptySequence)));
    });
}

#[test]
fn dynamic_reduce_strict_single_element_passes_through() {
    Python::attach(|py| {
        let f = py
            .eval(c"lambda a, b: a + b", None, None)
            .unwrap()
            .cast_into::<PyFunction>()
            .unwrap();
        let items = vec![to_dynamic(py, 9)];
        let r = reduce_dynamic_strict(&f, items).unwrap();
        assert_eq!(to_native(&r).ok(), Some(9));
    });
}

#[test]
fn dynamic_reduce_propagates_callable_failure_unchanged() {
    Python::attach(|py| {
        let f = py
            .eval(c"lambda a, b: a // (b - b)", None, None)
            .unwrap()
            .cast_into::<PyFunction>()
            .unwrap();
        let items = vec![to_dynamic(py, 1), to_dynamic(py, 2)];
        let r = reduce_dynamic_strict(&f, items);
        match r {
            Err(ReduceError::CallableFailure(e)) => {
                assert!(e.is_instance_of::<PyZeroDivisionError>(py));
            },
            _ => panic!("the callable's own failure must be propagated"),
        }
    });
}

#[test]
fn reduce_over_host_list_in_list_order() {
    Python::attach(|py| {
        let f = py
            .eval(c"lambda a, b: a - b", None, None)
            .unwrap()
            .cast_into::<PyFunction>()
            .unwrap();
        let list = PyList::new(py, [100i64, 30, 20]).unwrap();
        let r = reduce_list(&f, &list).unwrap().unwrap();
        // (100 - 30) - 20
        assert_eq!(to_native(&r).ok(), Some(50));
    });
}
