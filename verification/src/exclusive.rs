//! The exclusively owned value: a tagged union with a type-erased
//! escape hatch.
//!
//! A [`Val`] either holds a plain machine integer directly (a fast path
//! that needs no erasure) or owns a type-erased [`Handle`]. A value
//! owns its payload outright: passing it by move transfers ownership,
//! and the consuming extraction takes `self`, so the source is unusable
//! afterwards by the host type system alone.

use vstd::prelude::*;
use crate::handle::Handle;
use crate::payload::{Complex, Obj, Payload};

verus! {

broadcast use crate::handle::lemma_handle_view;

/// A dynamically typed value with exclusive ownership. Exactly one
/// case is active at a time.
#[derive(Debug, PartialEq, Eq, Structural)]
pub enum Val {
    /// The unboxed primitive case.
    Int(i64),
    /// The type-erased case.
    Obj(Handle),
}

impl Val {
    /// The erased payload, when this value is the type-erased case.
    pub open spec fn obj_payload(self) -> Option<Payload> {
        match self {
            Val::Int(_) => None,
            Val::Obj(h) => Some(h@),
        }
    }

    /// Whether this value holds an erased payload of concrete type `T`.
    pub open spec fn holds<T: Obj>(self) -> bool {
        self.obj_payload() matches Some(p) && p.token_spec() == T::token_spec()
    }

    /// Dynamic equality of two values: primitive against primitive
    /// compares the integers, erased against erased dispatches on the
    /// runtime type, and a primitive never equals an erased payload.
    pub open spec fn eq_spec(self, other: Val) -> bool {
        match (self, other) {
            (Val::Int(a), Val::Int(b)) => a == b,
            (Val::Obj(h), Val::Obj(k)) => h@ == k@,
            _ => false,
        }
    }

    /// Return a reference to the object of type `T`, absent when this
    /// value is the primitive case or holds another type.
    pub fn obj<T: Obj>(&self) -> (r: Option<&T>)
        ensures
            r is Some <==> self.holds::<T>(),
            r matches Some(x) ==> self.obj_payload() == Some(x.erase_spec()),
    {
        if let Val::Obj(h) = self {
            return h.downcast_ref::<T>();
        }
        None
    }

    /// Return a mutable reference to the object of type `T`, absent
    /// when this value is the primitive case or holds another type; in
    /// that case the value is left unchanged. Through the reference the
    /// caller may rewrite the payload in place; the value keeps its
    /// case and its runtime type.
    pub fn obj_mut<T: Obj>(&mut self) -> (r: Option<&mut T>)
        ensures
            r is Some <==> old(self).holds::<T>(),
            r is None ==> *final(self) == *old(self),
            r is Some ==> old(self).obj_payload() == Some((*r.unwrap()).erase_spec()),
            r is Some ==> final(self).obj_payload() == Some((*final(r.unwrap())).erase_spec()),
    {
        if let Val::Obj(h) = self {
            return h.downcast_mut::<T>();
        }
        None
    }

    /// Extract the object of type `T`, consuming the value. On a
    /// mismatch — the primitive case, or an erased payload of another
    /// type — the result is absent and the payload is dropped with the
    /// value: a failed consuming extraction does not hand it back.
    pub fn obj_into<T: Obj>(self) -> (r: Option<T>)
        ensures
            r is Some <==> self.holds::<T>(),
            r matches Some(x) ==> self.obj_payload() == Some(x.erase_spec()),
    {
        if let Val::Obj(h) = self {
            return h.downcast_into::<T>();
        }
        None
    }

    /// Dynamic equality against another value; total, never a fault.
    pub fn equals(&self, other: &Val) -> (r: bool)
        ensures
            r == self.eq_spec(*other),
    {
        match (self, other) {
            (Val::Int(a), Val::Int(b)) => a == b,
            (Val::Obj(h), Val::Obj(k)) => h.dyn_eq(k),
            _ => false,
        }
    }
}

impl From<i64> for Val {
    /// Wrap a plain integer in the unboxed primitive case.
    fn from(value: i64) -> (r: Val) {
        Val::Int(value)
    }
}

impl vstd::std_specs::convert::FromSpecImpl<i64> for Val {
    open spec fn obeys_from_spec() -> bool {
        true
    }

    open spec fn from_spec(value: i64) -> Val {
        Val::Int(value)
    }
}

impl From<Complex> for Val {
    /// Erase a complex number into the type-erased case.
    fn from(value: Complex) -> (r: Val) {
        Val::Obj(Handle::new(value))
    }
}

impl vstd::std_specs::convert::FromSpecImpl<Complex> for Val {
    open spec fn obeys_from_spec() -> bool {
        true
    }

    open spec fn from_spec(value: Complex) -> Val {
        Val::Obj(Handle::new_spec(value.erase_spec()))
    }
}

/// Equality on values is reflexive: every value equals itself.
pub proof fn lemma_equals_reflexive(v: Val)
    ensures
        v.eq_spec(v),
{
}

/// Values wrapping payloads of different concrete types are never
/// equal, whatever the two instances are.
pub proof fn lemma_cross_type_unequal<A: Obj, B: Obj>(a: A, b: B)
    requires
        A::token_spec() != B::token_spec(),
    ensures
        !Val::Obj(Handle::new_spec(a.erase_spec())).eq_spec(
            Val::Obj(Handle::new_spec(b.erase_spec())),
        ),
{
    A::lemma_erase(a, a);
    B::lemma_erase(b, b);
}

/// The unboxed primitive case never equals a type-erased payload, in
/// either direction, whatever the handle holds.
pub proof fn lemma_primitive_obj_unequal(i: i64, h: Handle)
    ensures
        !Val::Int(i).eq_spec(Val::Obj(h)),
        !Val::Obj(h).eq_spec(Val::Int(i)),
{
}

/// For payloads of the same concrete type, value equality delegates to
/// the payload type's own structural equality, exactly.
pub proof fn lemma_equality_delegation<T: Obj>(a: T, b: T)
    ensures
        Val::Obj(Handle::new_spec(a.erase_spec())).eq_spec(
            Val::Obj(Handle::new_spec(b.erase_spec())),
        ) <==> a == b,
{
    T::lemma_erase(a, b);
}

} // verus!
