//! Concrete payload types, their runtime identity tokens, and the
//! type-erased payload representation.
//!
//! A payload type is any concrete data type with a fixed runtime
//! identity, structural equality and a debug-printable form. The
//! family of payload types is closed here, so the erased form is a sum
//! type and the identity token is a discriminant of that sum.

use vstd::prelude::*;
use core::cmp::Ordering;

verus! {

/// A plain integer payload.
#[derive(Debug, PartialEq, Eq, Structural, Clone, Copy)]
pub struct Int {
    pub int: i64,
}

/// A complex number payload with integer parts.
#[derive(Debug, PartialEq, Eq, Structural, Clone, Copy)]
pub struct Complex {
    pub x: i64,
    pub y: i64,
}

/// Runtime identity token: stable and distinct per concrete payload
/// type within a process run.
#[derive(Debug, PartialEq, Eq, Structural, Clone, Copy)]
pub enum Token {
    Int,
    Complex,
}

/// The type-erased payload: exactly one concrete payload instance,
/// with its concrete type recoverable only through its token.
#[derive(Debug, PartialEq, Eq, Structural, Clone, Copy)]
pub enum Payload {
    Int(Int),
    Complex(Complex),
}

impl Payload {
    /// The identity token of the payload type held by this value.
    pub open spec fn token_spec(self) -> Token {
        match self {
            Payload::Int(_) => Token::Int,
            Payload::Complex(_) => Token::Complex,
        }
    }

    /// Identity view: report the runtime type of the held payload.
    pub fn token(&self) -> (t: Token)
        ensures
            t == self.token_spec(),
    {
        match self {
            Payload::Int(_) => Token::Int,
            Payload::Complex(_) => Token::Complex,
        }
    }
}

/// The total order on integers, as a three-way comparison.
pub open spec fn int_order(a: int, b: int) -> Ordering {
    if a < b {
        Ordering::Less
    } else if a == b {
        Ordering::Equal
    } else {
        Ordering::Greater
    }
}

/// The native ordering of each payload type: integers by magnitude,
/// complex numbers lexicographically by `x` then `y`. Payloads of
/// different types are incomparable.
pub open spec fn payload_cmp_spec(a: Payload, b: Payload) -> Option<Ordering> {
    match (a, b) {
        (Payload::Int(p), Payload::Int(q)) => Some(int_order(p.int as int, q.int as int)),
        (Payload::Complex(p), Payload::Complex(q)) => Some(
            if p.x != q.x {
                int_order(p.x as int, q.x as int)
            } else {
                int_order(p.y as int, q.y as int)
            },
        ),
        _ => None,
    }
}

/// Three-way comparison of two machine integers.
pub fn cmp_i64(a: i64, b: i64) -> (o: Ordering)
    ensures
        o == int_order(a as int, b as int),
{
    if a < b {
        Ordering::Less
    } else if a == b {
        Ordering::Equal
    } else {
        Ordering::Greater
    }
}

/// Payloads of different runtime types are never equal and never
/// ordered, whatever their contents look like.
pub proof fn lemma_cross_type_payloads(a: Payload, b: Payload)
    requires
        a.token_spec() != b.token_spec(),
    ensures
        a != b,
        payload_cmp_spec(a, b) is None,
{
}

/// Within one payload type the native order is total: same-type
/// payloads always order.
pub proof fn lemma_same_type_total(a: Payload, b: Payload)
    requires
        a.token_spec() == b.token_spec(),
    ensures
        payload_cmp_spec(a, b) is Some,
{
}

/// The equality and ordering dispatchers agree: payloads compare
/// `Equal` exactly when they are equal.
pub proof fn lemma_cmp_matches_eq(a: Payload, b: Payload)
    ensures
        payload_cmp_spec(a, b) == Some(Ordering::Equal) <==> a == b,
{
}

/// A concrete payload type: a type with a runtime identity token that
/// embeds into the type-erased [`Payload`] and can be recovered from it
/// by an identity check.
pub trait Obj: Sized {
    /// The identity token of this concrete type.
    spec fn token_spec() -> Token;

    /// How a value of this type embeds into the erased payload.
    spec fn erase_spec(self) -> Payload;

    /// Erasure carries this type's token and is injective, so erased
    /// values compare exactly as the concrete values do.
    proof fn lemma_erase(a: Self, b: Self)
        ensures
            a.erase_spec().token_spec() == Self::token_spec(),
            a.erase_spec() == b.erase_spec() ==> a == b,
    ;

    /// Identity service: the token of this concrete type.
    fn token() -> (t: Token)
        ensures
            t == Self::token_spec(),
    ;

    /// Erase a concrete value into the type-erased payload.
    fn erase(self) -> (p: Payload)
        ensures
            p == self.erase_spec(),
    ;

    /// Recover the concrete value iff the payload holds this type.
    fn restore(p: Payload) -> (r: Option<Self>)
        ensures
            r is Some <==> p.token_spec() == Self::token_spec(),
            r matches Some(x) ==> p == x.erase_spec(),
    ;

    /// Borrow the concrete value iff the payload holds this type.
    fn restore_ref(p: &Payload) -> (r: Option<&Self>)
        ensures
            r is Some <==> p.token_spec() == Self::token_spec(),
            r matches Some(x) ==> *p == x.erase_spec(),
    ;

    /// Exclusively borrow the concrete value iff the payload holds this
    /// type; on a mismatch the payload is left unchanged.
    fn restore_mut(p: &mut Payload) -> (r: Option<&mut Self>)
        ensures
            r is Some <==> old(p).token_spec() == Self::token_spec(),
            r is None ==> *final(p) == *old(p),
            r is Some ==> (*r.unwrap()).erase_spec() == *old(p),
            r is Some ==> *final(p) == (*final(r.unwrap())).erase_spec(),
    ;
}

impl Obj for Int {
    open spec fn token_spec() -> Token {
        Token::Int
    }

    open spec fn erase_spec(self) -> Payload {
        Payload::Int(self)
    }

    proof fn lemma_erase(a: Self, b: Self) {
    }

    fn token() -> (t: Token) {
        Token::Int
    }

    fn erase(self) -> (p: Payload) {
        Payload::Int(self)
    }

    fn restore(p: Payload) -> (r: Option<Self>) {
        match p {
            Payload::Int(x) => Some(x),
            _ => None,
        }
    }

    fn restore_ref(p: &Payload) -> (r: Option<&Self>) {
        match p {
            Payload::Int(x) => Some(x),
            _ => None,
        }
    }

    fn restore_mut(p: &mut Payload) -> (r: Option<&mut Self>) {
        match p {
            Payload::Int(x) => Some(x),
            _ => None,
        }
    }
}

impl Obj for Complex {
    open spec fn token_spec() -> Token {
        Token::Complex
    }

    open spec fn erase_spec(self) -> Payload {
        Payload::Complex(self)
    }

    proof fn lemma_erase(a: Self, b: Self) {
    }

    fn token() -> (t: Token) {
        Token::Complex
    }

    fn erase(self) -> (p: Payload) {
        Payload::Complex(self)
    }

    fn restore(p: Payload) -> (r: Option<Self>) {
        match p {
            Payload::Complex(x) => Some(x),
            _ => None,
        }
    }

    fn restore_ref(p: &Payload) -> (r: Option<&Self>) {
        match p {
            Payload::Complex(x) => Some(x),
            _ => None,
        }
    }

    fn restore_mut(p: &mut Payload) -> (r: Option<&mut Self>) {
        match p {
            Payload::Complex(x) => Some(x),
            _ => None,
        }
    }
}

} // verus!
