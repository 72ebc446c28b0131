//! The type-erased handle and the dynamic equality / ordering
//! dispatcher.
//!
//! A handle owns exactly one payload for its whole lifetime and exposes
//! only identity-checked access: callers name a concrete type and get a
//! view back iff the runtime token matches. Comparing two handles first
//! checks that they carry the same concrete type; different types are
//! never equal and never ordered.

use vstd::prelude::*;
use core::cmp::Ordering;
use crate::payload::{Obj, Payload, Token, payload_cmp_spec, cmp_i64};

verus! {

/// A container owning one type-erased payload. The concrete type never
/// appears at this interface; access goes through runtime identity
/// checks.
#[derive(Debug, PartialEq, Eq, Structural, Clone, Copy)]
pub struct Handle {
    payload: Payload,
}

impl View for Handle {
    type V = Payload;

    /// A handle is modelled by the one payload it holds.
    closed spec fn view(&self) -> Payload {
        self.payload
    }
}

impl Handle {
    /// The handle that holds a given payload.
    pub closed spec fn new_spec(p: Payload) -> Handle {
        Handle { payload: p }
    }

    /// Wrap a concrete payload; always succeeds.
    pub fn new<T: Obj>(payload: T) -> (h: Handle)
        ensures
            h == Handle::new_spec(payload.erase_spec()),
            h@ == payload.erase_spec(),
    {
        Handle { payload: payload.erase() }
    }

    /// Identity view: the runtime type token of the held payload.
    pub fn token(&self) -> (t: Token)
        ensures
            t == self@.token_spec(),
    {
        self.payload.token()
    }

    /// Does this handle hold a payload of concrete type `T`?
    pub fn is<T: Obj>(&self) -> (r: bool)
        ensures
            r == (self@.token_spec() == T::token_spec()),
    {
        let t = self.payload.token();
        t == T::token()
    }

    /// Borrowed view of the payload iff the runtime type matches `T`;
    /// absent on a mismatch, never a fault.
    pub fn downcast_ref<T: Obj>(&self) -> (r: Option<&T>)
        ensures
            r is Some <==> self@.token_spec() == T::token_spec(),
            r matches Some(x) ==> x.erase_spec() == self@,
    {
        T::restore_ref(&self.payload)
    }

    /// Exclusive view of the payload iff the runtime type matches `T`;
    /// on a mismatch the handle is left unchanged.
    pub fn downcast_mut<T: Obj>(&mut self) -> (r: Option<&mut T>)
        ensures
            r is Some <==> old(self)@.token_spec() == T::token_spec(),
            r is None ==> *final(self) == *old(self),
            r is Some ==> (*r.unwrap()).erase_spec() == old(self)@,
            r is Some ==> final(self)@ == (*final(r.unwrap())).erase_spec(),
    {
        T::restore_mut(&mut self.payload)
    }

    /// Consume the handle, yielding the owned payload iff the runtime
    /// type matches `T`. On a mismatch the handle is consumed all the
    /// same and the payload is dropped with it: a failed consuming
    /// downcast does not hand the payload back.
    pub fn downcast_into<T: Obj>(self) -> (r: Option<T>)
        ensures
            r is Some <==> self@.token_spec() == T::token_spec(),
            r matches Some(x) ==> x.erase_spec() == self@,
    {
        T::restore(self.payload)
    }

    /// Dynamic equality: same concrete type and structurally equal
    /// payloads. Handles of different payload types are never equal,
    /// whatever their contents. Total and pure: never a fault.
    pub fn dyn_eq(&self, other: &Handle) -> (r: bool)
        ensures
            r == (self@ == other@),
            self@.token_spec() != other@.token_spec() ==> r == false,
    {
        self.payload == other.payload
    }

    /// Dynamic ordering: the payload type's native order when both
    /// handles carry the same concrete type, incomparable otherwise.
    /// Total and pure: never a fault.
    pub fn dyn_partial_cmp(&self, other: &Handle) -> (r: Option<Ordering>)
        ensures
            r == payload_cmp_spec(self@, other@),
            self@.token_spec() != other@.token_spec() ==> r is None,
    {
        match (&self.payload, &other.payload) {
            (Payload::Int(p), Payload::Int(q)) => Some(cmp_i64(p.int, q.int)),
            (Payload::Complex(p), Payload::Complex(q)) => {
                if p.x != q.x {
                    Some(cmp_i64(p.x, q.x))
                } else {
                    Some(cmp_i64(p.y, q.y))
                }
            },
            _ => None,
        }
    }
}

/// A handle is determined by the payload it holds: construction and
/// the model view are mutually inverse.
pub broadcast proof fn lemma_handle_view(p: Payload)
    ensures
        #[trigger] Handle::new_spec(p)@ == p,
{
}

} // verus!
