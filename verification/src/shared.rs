//! The shared value: reference-counted cells with a dynamically
//! enforced single-writer / multiple-reader borrow discipline.
//!
//! Several [`Val`] handles may alias one underlying type-erased
//! payload. The cells live in an explicit [`Store`]; a handle names its
//! cell and every operation takes the store, so the aliasing is fully
//! visible to the contracts. Reading takes a short-lived read view,
//! mutation a short-lived exclusive write view; a conflicting borrow is
//! rejected with a distinct error instead of being silently allowed.
//! Consuming extraction demands sole ownership: while other handles
//! share the cell it fails without touching their data.

use vstd::prelude::*;
use core::cmp::Ordering;
use crate::handle::Handle;
use crate::payload::{Obj, Payload, payload_cmp_spec};

verus! {

/// Why an operation on a shared value was refused.
#[derive(Debug, PartialEq, Eq, Structural, Clone, Copy)]
pub enum ValError {
    /// The requested concrete type does not match the held payload's
    /// runtime type. Expected and recoverable.
    TypeMismatch,
    /// The requested view would overlap an outstanding view that the
    /// borrow discipline excludes.
    BorrowConflict,
    /// A consuming extraction was attempted while other handles still
    /// share the cell.
    SharedOwnershipViolation,
}

/// The model of one shared cell: the payload it holds, how many
/// handles own it, and the outstanding views on it.
pub ghost struct CellModel {
    pub payload: Payload,
    pub strong: int,
    pub readers: int,
    pub writer: bool,
}

/// The borrow discipline of one cell: a write view excludes all read
/// views, and a dead cell has no views at all.
pub open spec fn cell_wf(c: CellModel) -> bool {
    &&& c.writer ==> c.readers == 0
    &&& c.strong == 0 ==> c.readers == 0 && !c.writer
}

struct Slot {
    handle: Handle,
    strong: u64,
    readers: u64,
    writer: bool,
}

/// The arena of shared cells. Every shared [`Val`] lives in exactly
/// one store, and all operations on it go through that store.
pub struct Store {
    slots: Vec<Slot>,
}

impl Store {
    /// The model: one [`CellModel`] per cell ever created, in creation
    /// order. A cell whose `strong` count reached zero stays in place
    /// but is dead.
    pub closed spec fn cells(self) -> Seq<CellModel> {
        self.slots@.map(
            |i: int, s: Slot|
                CellModel {
                    payload: s.handle@,
                    strong: s.strong as int,
                    readers: s.readers as int,
                    writer: s.writer,
                },
        )
    }

    /// How many cells the store has ever created.
    pub open spec fn n_cells(self) -> int {
        self.cells().len() as int
    }

    /// The model of one cell.
    pub open spec fn cell(self, i: int) -> CellModel {
        self.cells()[i]
    }

    /// Every cell obeys the borrow discipline.
    pub open spec fn wf(self) -> bool {
        forall|i: int| 0 <= i < self.n_cells() ==> cell_wf(#[trigger] self.cell(i))
    }

    /// An empty store: no cells yet.
    pub fn new() -> (s: Store)
        ensures
            s.wf(),
            s.n_cells() == 0,
    {
        Store { slots: Vec::new() }
    }
}

/// A handle on one shared cell. Handles are duplicated only through
/// [`Val::clone_handle`], which counts them, so the `strong` count of a
/// cell tracks how many handles own it.
#[derive(Debug)]
pub struct Val {
    id: usize,
}

impl Val {
    /// Which cell this handle names.
    pub closed spec fn id_spec(self) -> int {
        self.id as int
    }

    /// A handle is valid in a store when its cell exists and is still
    /// owned.
    pub open spec fn valid(self, store: Store) -> bool {
        &&& 0 <= self.id_spec() < store.n_cells()
        &&& store.cell(self.id_spec()).strong >= 1
    }

    /// The payload this handle currently shares.
    pub open spec fn payload_in(self, store: Store) -> Payload {
        store.cell(self.id_spec()).payload
    }

    /// Dynamic equality of the payloads two handles share: same
    /// concrete type and structurally equal, never equal across types.
    pub open spec fn eq_spec(self, other: Val, store: Store) -> bool {
        self.payload_in(store) == other.payload_in(store)
    }

    /// Wrap an erased payload in a fresh cell with a single owner.
    pub fn new(value: Handle, store: &mut Store) -> (v: Val)
        requires
            old(store).wf(),
        ensures
            final(store).wf(),
            final(store).cells() == old(store).cells().push(
                (CellModel { payload: value@, strong: 1, readers: 0, writer: false }),
            ),
            v.id_spec() == old(store).n_cells(),
            v.valid(*final(store)),
    {
        let id = store.slots.len();
        store.slots.push(Slot { handle: value, strong: 1, readers: 0, writer: false });
        proof {
            assert(store.cells() =~= old(store).cells().push(
                CellModel { payload: value@, strong: 1, readers: 0, writer: false },
            ));
            assert forall|i: int| 0 <= i < store.n_cells() implies cell_wf(
                #[trigger] store.cell(i),
            ) by {
                if i < old(store).n_cells() {
                    assert(cell_wf(old(store).cell(i)));
                }
            }
        }
        Val { id }
    }

    /// Wrap a concrete payload in a fresh cell with a single owner.
    pub fn wrap<T: Obj>(value: T, store: &mut Store) -> (v: Val)
        requires
            old(store).wf(),
        ensures
            final(store).wf(),
            final(store).cells() == old(store).cells().push(
                (CellModel { payload: value.erase_spec(), strong: 1, readers: 0, writer: false }),
            ),
            v.id_spec() == old(store).n_cells(),
            v.valid(*final(store)),
    {
        Val::new(Handle::new(value), store)
    }

    /// A second handle on the same cell: the payload is now shared and
    /// the owner count says so.
    pub fn clone_handle(&self, store: &mut Store) -> (v: Val)
        requires
            old(store).wf(),
            self.valid(*old(store)),
            old(store).cell(self.id_spec()).strong < u64::MAX,
        ensures
            final(store).wf(),
            final(store).cells() == old(store).cells().update(
                self.id_spec(),
                (CellModel {
                    strong: old(store).cell(self.id_spec()).strong + 1,
                    ..old(store).cell(self.id_spec())
                }),
            ),
            v.id_spec() == self.id_spec(),
            v.valid(*final(store)),
            self.valid(*final(store)),
    {
        let slot = &mut store.slots[self.id];
        slot.strong = slot.strong + 1;
        proof {
            assert(store.cells() =~= old(store).cells().update(
                self.id as int,
                CellModel {
                    strong: old(store).cell(self.id as int).strong + 1,
                    ..old(store).cell(self.id as int)
                },
            ));
            assert forall|i: int| 0 <= i < store.n_cells() implies cell_wf(
                #[trigger] store.cell(i),
            ) by {
                assert(cell_wf(old(store).cell(i)));
            }
        }
        Val { id: self.id }
    }

    /// A read view of the object of type `T`. Refused with
    /// [`ValError::BorrowConflict`] while a write view is outstanding
    /// on the cell, and with [`ValError::TypeMismatch`] when the cell
    /// holds another type; then the store is untouched. On success the
    /// cell counts one more reader until the guard is released.
    pub fn object<T: Obj>(&self, store: &mut Store) -> (r: Result<ReadGuard<T>, ValError>)
        requires
            old(store).wf(),
            self.valid(*old(store)),
            old(store).cell(self.id_spec()).readers < u64::MAX,
        ensures
            final(store).wf(),
            r is Ok <==> !old(store).cell(self.id_spec()).writer && old(store).cell(
                self.id_spec(),
            ).payload.token_spec() == T::token_spec(),
            r matches Ok(g) ==> {
                &&& g.cell_id() == self.id_spec()
                &&& g.value_spec().erase_spec() == old(store).cell(self.id_spec()).payload
                &&& final(store).cells() == old(store).cells().update(
                    self.id_spec(),
                    (CellModel {
                        readers: old(store).cell(self.id_spec()).readers + 1,
                        ..old(store).cell(self.id_spec())
                    }),
                )
            },
            r matches Err(e) ==> {
                &&& *final(store) == *old(store)
                &&& (e == ValError::BorrowConflict <==> old(store).cell(self.id_spec()).writer)
                &&& (e == ValError::TypeMismatch <==> !old(store).cell(self.id_spec()).writer
                    && old(store).cell(self.id_spec()).payload.token_spec() != T::token_spec())
            },
    {
        if store.slots[self.id].writer {
            return Err(ValError::BorrowConflict);
        }
        let h = store.slots[self.id].handle;
        match h.downcast_into::<T>() {
            None => Err(ValError::TypeMismatch),
            Some(value) => {
                let slot = &mut store.slots[self.id];
                slot.readers = slot.readers + 1;
                proof {
                    assert(store.cells() =~= old(store).cells().update(
                        self.id as int,
                        CellModel {
                            readers: old(store).cell(self.id as int).readers + 1,
                            ..old(store).cell(self.id as int)
                        },
                    ));
                    assert forall|i: int| 0 <= i < store.n_cells() implies cell_wf(
                        #[trigger] store.cell(i),
                    ) by {
                        assert(cell_wf(old(store).cell(i)));
                    }
                }
                Ok(ReadGuard { id: self.id, value })
            },
        }
    }

    /// An exclusive write view of the object of type `T`. Refused with
    /// [`ValError::BorrowConflict`] while any view — read or write — is
    /// outstanding on the cell, and with [`ValError::TypeMismatch`]
    /// when the cell holds another type; then the store is untouched.
    /// On success the cell is marked written until the guard is
    /// released, and the release writes the guard's value back.
    pub fn object_mut<T: Obj>(&self, store: &mut Store) -> (r: Result<WriteGuard<T>, ValError>)
        requires
            old(store).wf(),
            self.valid(*old(store)),
        ensures
            final(store).wf(),
            r is Ok <==> !old(store).cell(self.id_spec()).writer && old(store).cell(
                self.id_spec(),
            ).readers == 0 && old(store).cell(self.id_spec()).payload.token_spec()
                == T::token_spec(),
            r matches Ok(g) ==> {
                &&& g.cell_id() == self.id_spec()
                &&& g.value_spec().erase_spec() == old(store).cell(self.id_spec()).payload
                &&& final(store).cells() == old(store).cells().update(
                    self.id_spec(),
                    (CellModel { writer: true, ..old(store).cell(self.id_spec()) }),
                )
            },
            r matches Err(e) ==> {
                &&& *final(store) == *old(store)
                &&& (e == ValError::BorrowConflict <==> old(store).cell(self.id_spec()).writer
                    || old(store).cell(self.id_spec()).readers > 0)
                &&& (e == ValError::TypeMismatch <==> !old(store).cell(self.id_spec()).writer
                    && old(store).cell(self.id_spec()).readers == 0 && old(store).cell(
                    self.id_spec(),
                ).payload.token_spec() != T::token_spec())
            },
    {
        if store.slots[self.id].writer || store.slots[self.id].readers > 0 {
            return Err(ValError::BorrowConflict);
        }
        let h = store.slots[self.id].handle;
        match h.downcast_into::<T>() {
            None => Err(ValError::TypeMismatch),
            Some(value) => {
                let slot = &mut store.slots[self.id];
                slot.writer = true;
                proof {
                    assert(store.cells() =~= old(store).cells().update(
                        self.id as int,
                        CellModel { writer: true, ..old(store).cell(self.id as int) },
                    ));
                    assert forall|i: int| 0 <= i < store.n_cells() implies cell_wf(
                        #[trigger] store.cell(i),
                    ) by {
                        assert(cell_wf(old(store).cell(i)));
                    }
                }
                Ok(WriteGuard { id: self.id, value })
            },
        }
    }

    /// Extract the object of type `T`, consuming this handle. Demands
    /// sole ownership: while other handles share the cell it fails with
    /// [`ValError::SharedOwnershipViolation`] and only this handle's
    /// share is given up — the payload stays for the other holders. As
    /// sole owner, a type mismatch fails with
    /// [`ValError::TypeMismatch`] and the payload is dropped with the
    /// cell all the same: a failed consuming extraction does not hand
    /// it back. Outstanding views must be released first.
    pub fn into_object<T: Obj>(self, store: &mut Store) -> (r: Result<T, ValError>)
        requires
            old(store).wf(),
            self.valid(*old(store)),
            old(store).cell(self.id_spec()).readers == 0,
            !old(store).cell(self.id_spec()).writer,
        ensures
            final(store).wf(),
            r is Ok <==> old(store).cell(self.id_spec()).strong == 1 && old(store).cell(
                self.id_spec(),
            ).payload.token_spec() == T::token_spec(),
            r matches Ok(x) ==> {
                &&& x.erase_spec() == old(store).cell(self.id_spec()).payload
                &&& final(store).cells() == old(store).cells().update(
                    self.id_spec(),
                    (CellModel { strong: 0, ..old(store).cell(self.id_spec()) }),
                )
            },
            r == Err::<T, ValError>(ValError::SharedOwnershipViolation) <==> old(store).cell(
                self.id_spec(),
            ).strong > 1,
            r == Err::<T, ValError>(ValError::SharedOwnershipViolation) ==> final(store).cells()
                == old(store).cells().update(
                self.id_spec(),
                (CellModel {
                    strong: old(store).cell(self.id_spec()).strong - 1,
                    ..old(store).cell(self.id_spec())
                }),
            ),
            r == Err::<T, ValError>(ValError::TypeMismatch) <==> old(store).cell(
                self.id_spec(),
            ).strong == 1 && old(store).cell(self.id_spec()).payload.token_spec()
                != T::token_spec(),
            r == Err::<T, ValError>(ValError::TypeMismatch) ==> final(store).cells() == old(
                store,
            ).cells().update(
                self.id_spec(),
                (CellModel { strong: 0, ..old(store).cell(self.id_spec()) }),
            ),
    {
        let slot = &mut store.slots[self.id];
        if slot.strong > 1 {
            slot.strong = slot.strong - 1;
            proof {
                assert(store.cells() =~= old(store).cells().update(
                    self.id as int,
                    CellModel {
                        strong: old(store).cell(self.id as int).strong - 1,
                        ..old(store).cell(self.id as int)
                    },
                ));
                assert forall|i: int| 0 <= i < store.n_cells() implies cell_wf(
                    #[trigger] store.cell(i),
                ) by {
                    assert(cell_wf(old(store).cell(i)));
                }
            }
            return Err(ValError::SharedOwnershipViolation);
        }
        slot.strong = 0;
        let h = slot.handle;
        proof {
            assert(store.cells() =~= old(store).cells().update(
                self.id as int,
                CellModel { strong: 0, ..old(store).cell(self.id as int) },
            ));
            assert forall|i: int| 0 <= i < store.n_cells() implies cell_wf(
                #[trigger] store.cell(i),
            ) by {
                assert(cell_wf(old(store).cell(i)));
            }
        }
        match h.downcast_into::<T>() {
            None => Err(ValError::TypeMismatch),
            Some(x) => Ok(x),
        }
    }

    /// Give this handle up without extracting: the cell loses one
    /// owner, and with the last owner gone it is dead. A last owner
    /// must release outstanding views first.
    pub fn release(self, store: &mut Store)
        requires
            old(store).wf(),
            self.valid(*old(store)),
            old(store).cell(self.id_spec()).strong > 1 || (old(store).cell(
                self.id_spec(),
            ).readers == 0 && !old(store).cell(self.id_spec()).writer),
        ensures
            final(store).wf(),
            final(store).cells() == old(store).cells().update(
                self.id_spec(),
                (CellModel {
                    strong: old(store).cell(self.id_spec()).strong - 1,
                    ..old(store).cell(self.id_spec())
                }),
            ),
    {
        let slot = &mut store.slots[self.id];
        slot.strong = slot.strong - 1;
        proof {
            assert(store.cells() =~= old(store).cells().update(
                self.id as int,
                CellModel {
                    strong: old(store).cell(self.id as int).strong - 1,
                    ..old(store).cell(self.id as int)
                },
            ));
            assert forall|i: int| 0 <= i < store.n_cells() implies cell_wf(
                #[trigger] store.cell(i),
            ) by {
                assert(cell_wf(old(store).cell(i)));
            }
        }
    }

    /// Dynamic equality of the payloads two handles share; total and
    /// pure for any pair of live handles without a write view out.
    /// Payloads of different runtime types are never equal.
    pub fn equals(&self, other: &Val, store: &Store) -> (r: bool)
        requires
            store.wf(),
            self.valid(*store),
            other.valid(*store),
            !store.cell(self.id_spec()).writer,
            !store.cell(other.id_spec()).writer,
        ensures
            r == self.eq_spec(*other, *store),
            self.payload_in(*store).token_spec() != other.payload_in(*store).token_spec() ==> r
                == false,
    {
        let a = &store.slots[self.id];
        let b = &store.slots[other.id];
        a.handle.dyn_eq(&b.handle)
    }

    /// Dynamic ordering of the payloads two handles share: the payload
    /// type's native order for same-type payloads, incomparable for
    /// different types — never a fault, never a default order.
    pub fn compare(&self, other: &Val, store: &Store) -> (r: Option<Ordering>)
        requires
            store.wf(),
            self.valid(*store),
            other.valid(*store),
            !store.cell(self.id_spec()).writer,
            !store.cell(other.id_spec()).writer,
        ensures
            r == payload_cmp_spec(self.payload_in(*store), other.payload_in(*store)),
            self.payload_in(*store).token_spec() != other.payload_in(*store).token_spec() ==> r
                is None,
    {
        let a = &store.slots[self.id];
        let b = &store.slots[other.id];
        a.handle.dyn_partial_cmp(&b.handle)
    }
}

/// An exclusive write view of a typed payload: while it is out, no
/// other view can be taken on the cell. The caller edits the value it
/// carries; [`WriteGuard::release`] commits that value to the cell.
pub struct WriteGuard<T: Obj> {
    id: usize,
    value: T,
}

impl<T: Obj> WriteGuard<T> {
    /// Which cell this view was taken on.
    pub closed spec fn cell_id(self) -> int {
        self.id as int
    }

    /// The value the view currently carries.
    pub closed spec fn value_spec(self) -> T {
        self.value
    }

    /// Read through the view.
    pub fn get(&self) -> (r: &T)
        ensures
            *r == self.value_spec(),
    {
        &self.value
    }

    /// Edit through the view. The change is committed to the cell only
    /// on release.
    pub fn set(&mut self, value: T)
        ensures
            final(self).cell_id() == old(self).cell_id(),
            final(self).value_spec() == value,
    {
        self.value = value;
    }

    /// Exclusive access to the carried value, for editing it in place.
    pub fn get_mut(&mut self) -> (r: &mut T)
        ensures
            *r == old(self).value_spec(),
            final(self).cell_id() == old(self).cell_id(),
            final(self).value_spec() == *final(r),
    {
        &mut self.value
    }

    /// Give the view back: the carried value is committed to the cell
    /// and the cell is open to new views again.
    pub fn release(self, store: &mut Store)
        requires
            old(store).wf(),
            0 <= self.cell_id() < old(store).n_cells(),
            old(store).cell(self.cell_id()).writer,
        ensures
            final(store).wf(),
            final(store).cells() == old(store).cells().update(
                self.cell_id(),
                (CellModel {
                    payload: self.value_spec().erase_spec(),
                    writer: false,
                    ..old(store).cell(self.cell_id())
                }),
            ),
    {
        let slot = &mut store.slots[self.id];
        slot.handle = Handle::new(self.value);
        slot.writer = false;
        proof {
            assert(store.cells() =~= old(store).cells().update(
                self.id as int,
                CellModel {
                    payload: self.value_spec().erase_spec(),
                    writer: false,
                    ..old(store).cell(self.id as int)
                },
            ));
            assert forall|i: int| 0 <= i < store.n_cells() implies cell_wf(
                #[trigger] store.cell(i),
            ) by {
                assert(cell_wf(old(store).cell(i)));
            }
        }
    }
}

/// A read view of a typed payload: proof that, when it was taken, the
/// cell held a `T` and no write view was outstanding. The cell keeps
/// the view counted until [`ReadGuard::release`].
pub struct ReadGuard<T: Obj> {
    id: usize,
    value: T,
}

impl<T: Obj> ReadGuard<T> {
    /// Which cell this view was taken on.
    pub closed spec fn cell_id(self) -> int {
        self.id as int
    }

    /// The value read.
    pub closed spec fn value_spec(self) -> T {
        self.value
    }

    /// Read through the view.
    pub fn get(&self) -> (r: &T)
        ensures
            *r == self.value_spec(),
    {
        &self.value
    }

    /// Give the view back: the cell counts one reader fewer and is
    /// otherwise untouched.
    pub fn release(self, store: &mut Store)
        requires
            old(store).wf(),
            0 <= self.cell_id() < old(store).n_cells(),
            old(store).cell(self.cell_id()).readers >= 1,
        ensures
            final(store).wf(),
            final(store).cells() == old(store).cells().update(
                self.cell_id(),
                (CellModel {
                    readers: old(store).cell(self.cell_id()).readers - 1,
                    ..old(store).cell(self.cell_id())
                }),
            ),
    {
        let slot = &mut store.slots[self.id];
        slot.readers = slot.readers - 1;
        proof {
            assert(store.cells() =~= old(store).cells().update(
                self.id as int,
                CellModel {
                    readers: old(store).cell(self.id as int).readers - 1,
                    ..old(store).cell(self.id as int)
                },
            ));
            assert forall|i: int| 0 <= i < store.n_cells() implies cell_wf(
                #[trigger] store.cell(i),
            ) by {
                assert(cell_wf(old(store).cell(i)));
            }
        }
    }
}

/// Handles that name the same cell always see the same payload, so a
/// mutation committed through one handle is visible through every
/// handle sharing that cell.
pub proof fn lemma_alias_same_view(store: Store, a: Val, b: Val)
    requires
        a.id_spec() == b.id_spec(),
    ensures
        a.payload_in(store) == b.payload_in(store),
        a.eq_spec(b, store),
{
}

/// Equality of shared values is reflexive: every handle equals itself.
pub proof fn lemma_equals_reflexive(v: Val, store: Store)
    ensures
        v.eq_spec(v, store),
{
}

/// Shared values holding payloads of different runtime types are never
/// equal and never ordered, whatever the instances are.
pub proof fn lemma_cross_type_incomparable(a: Val, b: Val, store: Store)
    requires
        a.payload_in(store).token_spec() != b.payload_in(store).token_spec(),
    ensures
        !a.eq_spec(b, store),
        payload_cmp_spec(a.payload_in(store), b.payload_in(store)) is None,
{
}

} // verus!
