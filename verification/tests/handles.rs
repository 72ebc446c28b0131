//! Tests of the type-erased handle and the equality / ordering
//! dispatcher.

use std::cmp::Ordering;

use dynval::handle::Handle;
use dynval::payload::{Complex, Int, Token};

#[test]
fn identity_tokens_are_per_type() {
    let h = Handle::new(Int { int: 5 });
    assert_eq!(h.token(), Token::Int);
    assert!(h.is::<Int>());
    assert!(!h.is::<Complex>());

    let k = Handle::new(Complex { x: 5, y: 0 });
    assert_eq!(k.token(), Token::Complex);
    assert!(k.is::<Complex>());
    assert!(!k.is::<Int>());
}

#[test]
fn downcast_ref_checks_the_runtime_type() {
    let h = Handle::new(Complex { x: 23, y: 42 });
    let c = h.downcast_ref::<Complex>().unwrap();
    assert_eq!(c.x, 23);
    assert_eq!(c.y, 42);
    assert!(h.downcast_ref::<Int>().is_none());
}

#[test]
fn downcast_mut_edits_in_place() {
    let mut h = Handle::new(Complex { x: 23, y: 42 });
    assert!(h.downcast_mut::<Int>().is_none());
    {
        let c = h.downcast_mut::<Complex>().unwrap();
        c.x = 1337;
    }
    assert_eq!(h.downcast_ref::<Complex>().unwrap().x, 1337);
}

#[test]
fn downcast_into_consumes_even_on_mismatch() {
    let h = Handle::new(Complex { x: 23, y: 42 });
    assert_eq!(h.downcast_into::<Complex>(), Some(Complex { x: 23, y: 42 }));
    let k = Handle::new(Complex { x: 23, y: 42 });
    // The documented quirk: the handle is consumed and the payload is
    // dropped although the requested type did not match.
    assert_eq!(k.downcast_into::<Int>(), None);
}

#[test]
fn dyn_eq_dispatches_on_the_runtime_type() {
    let five = Handle::new(Int { int: 5 });
    let five_too = Handle::new(Int { int: 5 });
    let seven = Handle::new(Int { int: 7 });
    let complex_five = Handle::new(Complex { x: 5, y: 0 });

    assert!(five.dyn_eq(&five_too));
    assert!(!five.dyn_eq(&seven));
    // Cross-type: never equal, even when the contents look alike.
    assert!(!five.dyn_eq(&complex_five));
    assert!(!complex_five.dyn_eq(&five));
}

#[test]
fn dyn_partial_cmp_orders_integers_by_magnitude() {
    let a = Handle::new(Int { int: 5 });
    let b = Handle::new(Int { int: 7 });
    assert_eq!(a.dyn_partial_cmp(&b), Some(Ordering::Less));
    assert_eq!(b.dyn_partial_cmp(&a), Some(Ordering::Greater));
    assert_eq!(a.dyn_partial_cmp(&a), Some(Ordering::Equal));
    let lo = Handle::new(Int { int: i64::MIN });
    let hi = Handle::new(Int { int: i64::MAX });
    assert_eq!(lo.dyn_partial_cmp(&hi), Some(Ordering::Less));
}

#[test]
fn dyn_partial_cmp_orders_complexes_lexicographically() {
    let a = Handle::new(Complex { x: 1, y: 5 });
    let b = Handle::new(Complex { x: 2, y: 0 });
    let c = Handle::new(Complex { x: 1, y: 7 });
    assert_eq!(a.dyn_partial_cmp(&b), Some(Ordering::Less));
    assert_eq!(b.dyn_partial_cmp(&a), Some(Ordering::Greater));
    assert_eq!(a.dyn_partial_cmp(&c), Some(Ordering::Less));
    assert_eq!(a.dyn_partial_cmp(&a), Some(Ordering::Equal));
}

#[test]
fn dyn_partial_cmp_is_none_across_types() {
    let i = Handle::new(Int { int: 5 });
    let c = Handle::new(Complex { x: 5, y: 0 });
    assert_eq!(i.dyn_partial_cmp(&c), None);
    assert_eq!(c.dyn_partial_cmp(&i), None);
}

#[test]
fn payloads_print_for_diagnostics() {
    let h = Handle::new(Complex { x: 23, y: 42 });
    assert!(!format!("{:?}", h).is_empty());
    assert!(!format!("{:?}", Int { int: 9 }).is_empty());
    assert!(!format!("{:?}", Complex { x: 1, y: 2 }).is_empty());
}
