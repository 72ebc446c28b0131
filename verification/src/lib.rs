//! A type-erased dynamic value library.
//!
//! A fixed family of concrete payload types is hidden behind a single
//! handle that offers identity-checked access: structural equality,
//! partial ordering and typed extraction are dispatched at runtime on a
//! per-type identity token. Two ownership strategies are provided:
//! an exclusively owned value ([`exclusive::Val`]) and a shared,
//! borrow-checked cell ([`shared::Val`]).

pub mod exclusive;
pub mod handle;
pub mod payload;
pub mod shared;
