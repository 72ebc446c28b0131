//! Tests of the exclusively owned value: construction, dynamic
//! equality, typed access and consuming extraction.

use dynval::exclusive::Val;
use dynval::payload::{Complex, Int};

#[test]
fn equality_is_reflexive() {
    let ival = Val::from(1337);
    assert!(ival.equals(&ival));
    let val = Val::from(Complex { x: 23, y: 42 });
    assert!(val.equals(&val));
}

#[test]
fn cross_type_values_are_never_equal() {
    // An integer 5 and a complex number encoding 5 look alike but are
    // of different payload types, so they never compare equal.
    let a = Val::from(5_i64);
    let b = Val::from(Complex { x: 5, y: 0 });
    assert!(!a.equals(&b));
    assert!(!b.equals(&a));
    assert_ne!(a, b);
}

#[test]
fn same_type_equality_delegates_to_payload_equality() {
    let a = Val::from(Complex { x: 23, y: 42 });
    let b = Val::from(Complex { x: 23, y: 42 });
    let c = Val::from(Complex { x: 23, y: 43 });
    assert_eq!(Complex { x: 23, y: 42 }, Complex { x: 23, y: 42 });
    assert!(a.equals(&b));
    assert_eq!(a, b);
    assert!(!a.equals(&c));
}

#[test]
fn primitive_equality_compares_the_integers() {
    assert!(Val::from(7).equals(&Val::from(7)));
    assert!(!Val::from(7).equals(&Val::from(8)));
}

#[test]
fn obj_borrows_the_matching_type_only() {
    let val = Val::from(Complex { x: 23, y: 42 });
    let cp = val.obj::<Complex>().unwrap();
    assert_eq!(cp.x, 23);
    assert_eq!(cp.y, 42);
    // The primitive case holds no erased object at all.
    let ival = Val::from(1337);
    assert!(ival.obj::<Complex>().is_none());
    assert!(ival.obj::<Int>().is_none());
    // A mismatching erased type is absent, not a fault.
    assert!(val.obj::<Int>().is_none());
}

#[test]
fn obj_mut_edits_are_visible_afterwards() {
    let mut val = Val::from(Complex { x: 23, y: 42 });
    {
        let cp = val.obj_mut::<Complex>().unwrap();
        cp.x = 1337;
        cp.y = 666;
    }
    let cp = val.obj::<Complex>().unwrap();
    assert_eq!(cp.x, 1337);
    assert_eq!(cp.y, 666);
}

#[test]
fn obj_mut_mismatch_leaves_the_value_unchanged() {
    let mut val = Val::from(Complex { x: 23, y: 42 });
    assert!(val.obj_mut::<Int>().is_none());
    assert!(val.equals(&Val::from(Complex { x: 23, y: 42 })));
    let mut ival = Val::from(1337);
    assert!(ival.obj_mut::<Complex>().is_none());
    assert!(ival.equals(&Val::from(1337)));
}

#[test]
fn obj_into_yields_the_owned_payload() {
    let val = Val::from(Complex { x: 23, y: 42 });
    let c = val.obj_into::<Complex>();
    assert_eq!(c, Some(Complex { x: 23, y: 42 }));
}

#[test]
fn obj_into_mismatch_is_absent_and_consumes_the_value() {
    // The documented quirk: a failed consuming extraction still
    // consumes the value, and the payload is dropped with it.
    let val = Val::from(Complex { x: 23, y: 42 });
    let i = val.obj_into::<Int>();
    assert!(i.is_none());
    // `val` is moved out either way; the payload is not recoverable.
    let ival = Val::from(1337);
    assert!(ival.obj_into::<Complex>().is_none());
}

#[test]
fn values_print_for_diagnostics() {
    let val = Val::from(Complex { x: 23, y: 42 });
    let dump = format!("{:?}", val);
    assert!(!dump.is_empty());
    let idump = format!("{:?}", Val::from(1337));
    assert!(!idump.is_empty());
}

#[test]
fn end_to_end_scenario() {
    let ival = Val::from(1337);
    let mut val = Val::from(Complex { x: 23, y: 42 });
    let val2 = Val::from(Complex { x: 23, y: 42 });

    assert!(val.equals(&val2));
    assert_eq!(val, val2);
    assert!(!val.equals(&ival));

    {
        let cp = val.obj_mut::<Complex>().unwrap();
        cp.x = 1337;
        cp.y = 666;
    }
    assert!(!val.equals(&val2));
    assert!(!val.equals(&ival));

    let c = val.obj_into::<Complex>();
    assert_eq!(c, Some(Complex { x: 1337, y: 666 }));
    // `val` is consumed by the extraction: the move is enforced by the
    // host type system, so the source can no longer yield anything.
}
