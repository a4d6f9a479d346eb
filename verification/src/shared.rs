//! Shared cells and the heap that owns them.
//!
//! A cell is an access counter next to a value. Cells are owned by a
//! [`Heap`] and named by [`Shared`] handles, so that copies of a handle alias
//! one cell. Cells are never freed one by one: they live as long as their
//! heap. A handle that names no cell of the heap, or a cell of another type
//! than asked for, is answered with an error.

use crate::access::{
    can_share, Access, AccessError, NotAccessibleMut, NotAccessibleRef, NotAccessibleTake,
    RawBorrowedMut, RawBorrowedRef, RawTakeGuard, Snapshot, TAKEN,
};
use crate::value::{
    clone_entries, clone_values, entries_view, values_view, IrValue, Payload, PayloadV, Shared,
    ValueKind,
};
use vstd::string::*;
use vstd::prelude::*;

verus! {

/// A cell: an access counter and the value it guards.
pub struct SharedCell {
    pub access: Access,
    pub data: Payload,
}

/// What a [`SharedCell`] stands for.
pub struct CellV {
    pub counter: int,
    pub data: PayloadV,
}

impl View for SharedCell {
    type V = CellV;

    open spec fn view(&self) -> CellV {
        CellV { counter: self.access.counter(), data: self.data@ }
    }
}

/// The views of a sequence of cells.
pub open spec fn cells_view(cells: Seq<SharedCell>) -> Seq<CellV> {
    cells.map_values(|c: SharedCell| c@)
}

/// The cell at `index` with its counter set to `counter`.
pub open spec fn with_counter(heap: Seq<CellV>, index: int, counter: int) -> Seq<CellV> {
    heap.update(index, CellV { counter, data: heap[index].data })
}

/// The cell at `index` with its value set to `data`.
pub open spec fn with_data(heap: Seq<CellV>, index: int, data: PayloadV) -> Seq<CellV> {
    heap.update(index, CellV { counter: heap[index].counter, data })
}

/// What a request for a shared borrow of `handle` does to a heap.
pub open spec fn borrow_ref_model(heap: Seq<CellV>, handle: Shared) -> Result<
    Seq<CellV>,
    AccessError,
> {
    let i = handle.index as int;
    if i >= heap.len() {
        Err(AccessError::MissingCell { index: handle.index })
    } else if !can_share(heap[i].counter) {
        Err(
            AccessError::NotAccessibleRef {
                error: NotAccessibleRef(Snapshot(heap[i].counter as isize)),
            },
        )
    } else {
        Ok(with_counter(heap, i, heap[i].counter - 1))
    }
}

/// What a request for the exclusive borrow of `handle` does to a heap.
pub open spec fn borrow_mut_model(heap: Seq<CellV>, handle: Shared) -> Result<
    Seq<CellV>,
    AccessError,
> {
    let i = handle.index as int;
    if i >= heap.len() {
        Err(AccessError::MissingCell { index: handle.index })
    } else if heap[i].counter != 0 {
        Err(
            AccessError::NotAccessibleMut {
                error: NotAccessibleMut(Snapshot(heap[i].counter as isize)),
            },
        )
    } else {
        Ok(with_counter(heap, i, 1))
    }
}

/// What a request to take the value of `handle` does to a heap.
pub open spec fn take_model(heap: Seq<CellV>, handle: Shared) -> Result<Seq<CellV>, AccessError> {
    let i = handle.index as int;
    if i >= heap.len() {
        Err(AccessError::MissingCell { index: handle.index })
    } else if heap[i].counter != 0 {
        Err(
            AccessError::NotAccessibleTake {
                error: NotAccessibleTake(Snapshot(heap[i].counter as isize)),
            },
        )
    } else {
        Ok(heap.update(i, CellV { counter: TAKEN as int, data: placeholder() }))
    }
}

/// What a request to read the cell of `handle` as a cell of the category
/// `kind` gives: the value of the cell, unless the borrow is refused or the
/// cell is of another category.
pub open spec fn read_model(heap: Seq<CellV>, handle: Shared, kind: ValueKind) -> Result<
    PayloadV,
    AccessError,
> {
    let i = handle.index as int;
    match borrow_ref_model(heap, handle) {
        Err(error) => Err(error),
        Ok(_) => if heap[i].data.kind() == kind {
            Ok(heap[i].data)
        } else {
            Err(AccessError::UnexpectedType { expected: kind, actual: heap[i].data.kind() })
        },
    }
}

/// What a request to write to the cell of `handle` as a cell of the category
/// `kind` gives: the value of the cell as it stands, unless the borrow is
/// refused or the cell is of another category.
pub open spec fn write_model(heap: Seq<CellV>, handle: Shared, kind: ValueKind) -> Result<
    PayloadV,
    AccessError,
> {
    let i = handle.index as int;
    match borrow_mut_model(heap, handle) {
        Err(error) => Err(error),
        Ok(_) => if heap[i].data.kind() == kind {
            Ok(heap[i].data)
        } else {
            Err(AccessError::UnexpectedType { expected: kind, actual: heap[i].data.kind() })
        },
    }
}

/// A second exclusive borrow always fails, with a snapshot of the cell as
/// the first one left it: exclusively accessed.
pub proof fn law_double_exclusive_fails(heap: Seq<CellV>, handle: Shared)
    requires
        borrow_mut_model(heap, handle) is Ok,
    ensures
        borrow_mut_model(borrow_mut_model(heap, handle)->Ok_0, handle) == Err::<Seq<CellV>, _>(
            AccessError::NotAccessibleMut { error: NotAccessibleMut(Snapshot(1)) },
        ),
{
}

/// An exclusive borrow after a shared one always fails, with a snapshot of
/// the cell as the shared borrow left it.
pub proof fn law_shared_then_exclusive_fails(heap: Seq<CellV>, handle: Shared)
    requires
        borrow_ref_model(heap, handle) is Ok,
    ensures
        borrow_mut_model(borrow_ref_model(heap, handle)->Ok_0, handle) == Err::<Seq<CellV>, _>(
            AccessError::NotAccessibleMut {
                error: NotAccessibleMut(
                    Snapshot((heap[handle.index as int].counter - 1) as isize),
                ),
            },
        ),
        heap[handle.index as int].counter - 1 < 0,
{
}

/// A shared borrow after an exclusive one always fails, with a snapshot of
/// the cell as the exclusive borrow left it: exclusively accessed.
pub proof fn law_exclusive_then_shared_fails(heap: Seq<CellV>, handle: Shared)
    requires
        borrow_mut_model(heap, handle) is Ok,
    ensures
        borrow_ref_model(borrow_mut_model(heap, handle)->Ok_0, handle) == Err::<Seq<CellV>, _>(
            AccessError::NotAccessibleRef { error: NotAccessibleRef(Snapshot(1)) },
        ),
{
}

/// A take while the cell is borrowed always fails, with a snapshot of the
/// cell as the borrow left it.
pub proof fn law_take_while_borrowed_fails(heap: Seq<CellV>, handle: Shared)
    ensures
        borrow_ref_model(heap, handle) matches Ok(borrowed) ==> take_model(borrowed, handle)
            == Err::<Seq<CellV>, _>(
            AccessError::NotAccessibleTake {
                error: NotAccessibleTake(
                    Snapshot((heap[handle.index as int].counter - 1) as isize),
                ),
            },
        ),
        borrow_mut_model(heap, handle) matches Ok(borrowed) ==> take_model(borrowed, handle)
            == Err::<Seq<CellV>, _>(
            AccessError::NotAccessibleTake { error: NotAccessibleTake(Snapshot(1)) },
        ),
{
}

/// Nothing can be borrowed from a cell whose value was taken, and it cannot
/// be taken again: each request fails with the snapshot of a moved value.
pub proof fn law_taken_is_not_accessible(heap: Seq<CellV>, handle: Shared)
    requires
        take_model(heap, handle) is Ok,
    ensures
        ({
            let taken = take_model(heap, handle)->Ok_0;
            &&& borrow_ref_model(taken, handle) == Err::<Seq<CellV>, _>(
                AccessError::NotAccessibleRef { error: NotAccessibleRef(Snapshot(TAKEN)) },
            )
            &&& borrow_mut_model(taken, handle) == Err::<Seq<CellV>, _>(
                AccessError::NotAccessibleMut { error: NotAccessibleMut(Snapshot(TAKEN)) },
            )
            &&& take_model(taken, handle) == Err::<Seq<CellV>, _>(
                AccessError::NotAccessibleTake { error: NotAccessibleTake(Snapshot(TAKEN)) },
            )
        }),
{
}

/// A shared borrow of a cell, to be given back to the heap, with what the
/// holder has picked from the value of the cell. The borrow of a whole cell
/// holds its handle.
#[derive(Debug)]
pub struct BorrowRef<T> {
    pub data: T,
    pub cell: Shared,
    pub guard: RawBorrowedRef,
}

/// The exclusive borrow of a cell, to be given back to the heap, with what
/// the holder has picked from the value of the cell. The borrow of a whole
/// cell holds its handle.
#[derive(Debug)]
pub struct BorrowMut<T> {
    pub data: T,
    pub cell: Shared,
    pub guard: RawBorrowedMut,
}

/// A take of the value of a cell, to be undone at the heap.
#[derive(Debug)]
pub struct TakeGuard {
    pub cell: Shared,
    pub guard: RawTakeGuard,
}

/// What stands in a cell while its value is away.
pub open spec fn placeholder() -> PayloadV {
    PayloadV::String(Seq::empty())
}

impl<T> BorrowRef<T> {
    /// The borrow of `cell` that `guard` stands for, with `data` picked
    /// from it.
    pub(crate) fn from_raw(data: T, cell: Shared, guard: RawBorrowedRef) -> (borrow: BorrowRef<T>)
        ensures
            borrow.data == data,
            borrow.cell == cell,
    {
        BorrowRef { data, cell, guard }
    }

    /// Picks a part of the borrowed value: `m` reads the value of the cell
    /// and answers with what it picked, which the borrow then holds. If `m`
    /// fails, the borrow is given back to the heap and the error of `m` is
    /// passed on.
    pub fn try_map<M, U, E>(this: BorrowRef<T>, heap: &mut Heap, m: M) -> (r: Result<
        BorrowRef<U>,
        E,
    >) where M: FnOnce(&Payload) -> Result<U, E>
        requires
            this.cell.index < old(heap)@.len(),
            old(heap)@[this.cell.index as int].counter < 0,
            call_requires(m, (&old(heap).cells@[this.cell.index as int].data,)),
        ensures
            match r {
                Ok(borrow) => borrow.cell == this.cell && final(heap)@ == old(heap)@
                    && call_ensures(
                    m,
                    (&old(heap).cells@[this.cell.index as int].data,),
                    Ok::<U, E>(borrow.data),
                ),
                Err(error) => final(heap)@ == with_counter(
                    old(heap)@,
                    this.cell.index as int,
                    old(heap)@[this.cell.index as int].counter + 1,
                ) && call_ensures(
                    m,
                    (&old(heap).cells@[this.cell.index as int].data,),
                    Err::<U, E>(error),
                ),
            },
    {
        match m(heap.get(this.cell.index)) {
            Ok(data) => Ok(BorrowRef { data, cell: this.cell, guard: this.guard }),
            Err(error) => {
                heap.release_ref(this);
                Err(error)
            },
        }
    }
}

impl<T> BorrowMut<T> {
    /// The borrow of `cell` that `guard` stands for, with `data` picked
    /// from it.
    pub(crate) fn from_raw(data: T, cell: Shared, guard: RawBorrowedMut) -> (borrow: BorrowMut<T>)
        ensures
            borrow.data == data,
            borrow.cell == cell,
    {
        BorrowMut { data, cell, guard }
    }

    /// Picks a part of the borrowed value: `m` reads the value of the cell
    /// and answers with what it picked, which the borrow then holds. If `m`
    /// fails, the borrow is given back to the heap and the error of `m` is
    /// passed on.
    pub fn try_map<M, U, E>(this: BorrowMut<T>, heap: &mut Heap, m: M) -> (r: Result<
        BorrowMut<U>,
        E,
    >) where M: FnOnce(&Payload) -> Result<U, E>
        requires
            this.cell.index < old(heap)@.len(),
            old(heap)@[this.cell.index as int].counter == 1,
            call_requires(m, (&old(heap).cells@[this.cell.index as int].data,)),
        ensures
            match r {
                Ok(borrow) => borrow.cell == this.cell && final(heap)@ == old(heap)@
                    && call_ensures(
                    m,
                    (&old(heap).cells@[this.cell.index as int].data,),
                    Ok::<U, E>(borrow.data),
                ),
                Err(error) => final(heap)@ == with_counter(
                    old(heap)@,
                    this.cell.index as int,
                    0,
                ) && call_ensures(
                    m,
                    (&old(heap).cells@[this.cell.index as int].data,),
                    Err::<U, E>(error),
                ),
            },
    {
        match m(heap.get(this.cell.index)) {
            Ok(data) => Ok(BorrowMut { data, cell: this.cell, guard: this.guard }),
            Err(error) => {
                heap.release_mut(this);
                Err(error)
            },
        }
    }
}

/// The cells of one evaluation.
pub struct Heap {
    pub cells: Vec<SharedCell>,
}

impl View for Heap {
    type V = Seq<CellV>;

    open spec fn view(&self) -> Seq<CellV> {
        cells_view(self.cells@)
    }
}

impl Heap {
    /// A heap without cells.
    pub fn new() -> (heap: Heap)
        ensures
            heap@ == Seq::<CellV>::empty(),
    {
        let heap = Heap { cells: Vec::new() };
        assert(heap@ =~= Seq::<CellV>::empty());
        heap
    }

    /// The number of cells.
    pub fn len(&self) -> (n: usize)
        ensures
            n == self@.len(),
    {
        self.cells.len()
    }

    /// Puts `data` into a new cell that nobody has borrowed.
    pub fn share(&mut self, data: Payload) -> (handle: Shared)
        ensures
            handle.index == old(self)@.len(),
            final(self)@ == old(self)@.push(CellV { counter: 0, data: data@ }),
    {
        let index = self.cells.len();
        self.cells.push(SharedCell { access: Access::new(), data });
        assert(self@ =~= old(self)@.push(CellV { counter: 0, data: data@ }));
        Shared { index }
    }

    /// The counter of the cell of `handle`, if the heap has that cell.
    pub fn snapshot(&self, handle: Shared) -> (r: Option<Snapshot>)
        ensures
            handle.index < self@.len() ==> r == Some(
                Snapshot(self@[handle.index as int].counter as isize),
            ),
            handle.index >= self@.len() ==> r is None,
    {
        if handle.index < self.cells.len() {
            Some(self.cells[handle.index].access.snapshot())
        } else {
            None
        }
    }

    /// Asks for one more shared borrow of the cell of `handle`.
    pub fn borrow_ref(&mut self, handle: Shared) -> (r: Result<BorrowRef<Shared>, AccessError>)
        ensures
            match borrow_ref_model(old(self)@, handle) {
                Ok(heap) => r is Ok && r->Ok_0.data == handle && r->Ok_0.cell == handle
                    && final(self)@ == heap,
                Err(error) => r == Err::<BorrowRef<Shared>, _>(error) && final(self)@ == old(self)@,
            },
            final(self)@.len() == old(self)@.len(),
    {
        let i = handle.index;
        if i >= self.cells.len() {
            return Err(AccessError::MissingCell { index: i });
        }
        match self.cells[i].access.shared() {
            Ok(guard) => {
                assert(self@ =~= with_counter(old(self)@, i as int, old(self)@[i as int].counter - 1));
                Ok(BorrowRef::from_raw(handle, handle, guard))
            },
            Err(error) => {
                assert(self@ =~= old(self)@);
                Err(AccessError::NotAccessibleRef { error })
            },
        }
    }

    /// Gives a shared borrow back.
    pub fn release_ref<T>(&mut self, borrow: BorrowRef<T>)
        requires
            borrow.cell.index < old(self)@.len(),
            old(self)@[borrow.cell.index as int].counter < 0,
        ensures
            final(self)@ == with_counter(
                old(self)@,
                borrow.cell.index as int,
                old(self)@[borrow.cell.index as int].counter + 1,
            ),
    {
        let i = borrow.cell.index;
        self.cells[i].access.check();
        self.cells[i].access.release_shared(borrow.guard);
        assert(self@ =~= with_counter(old(self)@, i as int, old(self)@[i as int].counter + 1));
    }

    /// Asks for the exclusive borrow of the cell of `handle`.
    pub fn borrow_mut(&mut self, handle: Shared) -> (r: Result<BorrowMut<Shared>, AccessError>)
        ensures
            match borrow_mut_model(old(self)@, handle) {
                Ok(heap) => r is Ok && r->Ok_0.data == handle && r->Ok_0.cell == handle
                    && final(self)@ == heap,
                Err(error) => r == Err::<BorrowMut<Shared>, _>(error) && final(self)@ == old(self)@,
            },
            final(self)@.len() == old(self)@.len(),
    {
        let i = handle.index;
        if i >= self.cells.len() {
            return Err(AccessError::MissingCell { index: i });
        }
        match self.cells[i].access.exclusive() {
            Ok(guard) => {
                assert(self@ =~= with_counter(old(self)@, i as int, 1));
                Ok(BorrowMut::from_raw(handle, handle, guard))
            },
            Err(error) => {
                assert(self@ =~= old(self)@);
                Err(AccessError::NotAccessibleMut { error })
            },
        }
    }

    /// Gives the exclusive borrow back.
    pub fn release_mut<T>(&mut self, borrow: BorrowMut<T>)
        requires
            borrow.cell.index < old(self)@.len(),
            old(self)@[borrow.cell.index as int].counter == 1,
        ensures
            final(self)@ == with_counter(old(self)@, borrow.cell.index as int, 0),
    {
        let i = borrow.cell.index;
        self.cells[i].access.check();
        self.cells[i].access.release_exclusive(borrow.guard);
        assert(self@ =~= with_counter(old(self)@, i as int, 0));
    }

    /// Asks to take the value of the cell of `handle` away. The value is
    /// moved out and the cell marked as moved; a placeholder remains.
    pub fn take(&mut self, handle: Shared) -> (r: Result<(TakeGuard, Payload), AccessError>)
        ensures
            match take_model(old(self)@, handle) {
                Ok(heap) => r is Ok && r->Ok_0.0.cell == handle
                    && r->Ok_0.1@ == old(self)@[handle.index as int].data && final(self)@ == heap,
                Err(error) => r == Err::<(TakeGuard, Payload), _>(error)
                    && final(self)@ == old(self)@,
            },
            final(self)@.len() == old(self)@.len(),
    {
        let i = handle.index;
        if i >= self.cells.len() {
            return Err(AccessError::MissingCell { index: i });
        }
        match self.cells[i].access.take() {
            Ok(guard) => {
                let data = self.replace(i, Payload::String(String::new()));
                assert(self@ =~= take_model(old(self)@, handle)->Ok_0);
                Ok((TakeGuard { cell: handle, guard }, data))
            },
            Err(error) => {
                assert(self@ =~= old(self)@);
                Err(AccessError::NotAccessibleTake { error })
            },
        }
    }

    /// Undoes a take: `data` is put into the cell, which is idle again.
    pub fn release_take(&mut self, taken: TakeGuard, data: Payload)
        requires
            taken.cell.index < old(self)@.len(),
            old(self)@[taken.cell.index as int].counter == TAKEN,
        ensures
            final(self)@ == old(self)@.update(
                taken.cell.index as int,
                CellV { counter: 0, data: data@ },
            ),
    {
        let i = taken.cell.index;
        self.cells[i].access.check();
        self.cells[i].access.release_take(taken.guard);
        let _ = self.replace(i, data);
        assert(self@ =~= old(self)@.update(i as int, CellV { counter: 0, data: data@ }));
    }

    /// The value of the cell that is borrowed.
    pub fn read<T>(&self, borrow: &BorrowRef<T>) -> (data: &Payload)
        requires
            borrow.cell.index < self@.len(),
        ensures
            *data == self.cells@[borrow.cell.index as int].data,
            data@ == self@[borrow.cell.index as int].data,
    {
        self.get(borrow.cell.index)
    }

    /// Puts `data` in the place of the value of the cell that is borrowed
    /// exclusively, and hands out the value that was there.
    pub fn write<T>(&mut self, borrow: &BorrowMut<T>, data: Payload) -> (previous: Payload)
        requires
            borrow.cell.index < old(self)@.len(),
        ensures
            previous@ == old(self)@[borrow.cell.index as int].data,
            final(self)@ == with_data(old(self)@, borrow.cell.index as int, data@),
    {
        self.replace(borrow.cell.index, data)
    }

    /// A copy of the text of the string cell of `handle`, read under a
    /// shared borrow that is given back before the call returns.
    pub fn read_string(&mut self, handle: Shared) -> (r: Result<String, AccessError>)
        ensures
            final(self)@ == old(self)@,
            match read_model(old(self)@, handle, ValueKind::String) {
                Ok(data) => r is Ok && r->Ok_0@ == data.text(),
                Err(error) => r == Err::<String, _>(error),
            },
    {
        let borrow = match self.borrow_ref(handle) {
            Ok(borrow) => borrow,
            Err(error) => {
                return Err(error);
            },
        };
        let r = match self.get(handle.index) {
            Payload::String(s) => Ok(s.clone()),
            other => Err(
                AccessError::UnexpectedType { expected: ValueKind::String, actual: other.kind() },
            ),
        };
        self.release_ref(borrow);
        assert(self@ =~= old(self)@);
        r
    }

    /// A copy of the items of the vector or tuple cell of `handle`, read
    /// under a shared borrow that is given back before the call returns.
    pub fn read_items(&mut self, handle: Shared, kind: ValueKind) -> (r: Result<
        Vec<IrValue>,
        AccessError,
    >)
        ensures
            final(self)@ == old(self)@,
            match read_model(old(self)@, handle, kind) {
                Ok(data) => r is Ok && values_view(r->Ok_0@) == data.items(),
                Err(error) => r == Err::<Vec<IrValue>, _>(error),
            },
    {
        let borrow = match self.borrow_ref(handle) {
            Ok(borrow) => borrow,
            Err(error) => {
                return Err(error);
            },
        };
        let data = self.get(handle.index);
        let actual = data.kind();
        let r = if actual != kind {
            Err(AccessError::UnexpectedType { expected: kind, actual })
        } else {
            match data {
                Payload::Vec(items) => Ok(clone_values(items)),
                Payload::Tuple(items) => Ok(clone_values(items)),
                _ => {
                    let none: Vec<IrValue> = Vec::new();
                    assert(values_view(none@) =~= Seq::<crate::value::ValueV>::empty());
                    Ok(none)
                },
            }
        };
        self.release_ref(borrow);
        assert(self@ =~= old(self)@);
        r
    }

    /// A copy of the entries of the object cell of `handle`, read under a
    /// shared borrow that is given back before the call returns.
    pub fn read_entries(&mut self, handle: Shared) -> (r: Result<
        Vec<(String, IrValue)>,
        AccessError,
    >)
        ensures
            final(self)@ == old(self)@,
            match read_model(old(self)@, handle, ValueKind::Object) {
                Ok(data) => r is Ok && entries_view(r->Ok_0@) == data.entries(),
                Err(error) => r == Err::<Vec<(String, IrValue)>, _>(error),
            },
    {
        let borrow = match self.borrow_ref(handle) {
            Ok(borrow) => borrow,
            Err(error) => {
                return Err(error);
            },
        };
        let r = match self.get(handle.index) {
            Payload::Object(entries) => Ok(clone_entries(entries)),
            other => Err(
                AccessError::UnexpectedType { expected: ValueKind::Object, actual: other.kind() },
            ),
        };
        self.release_ref(borrow);
        assert(self@ =~= old(self)@);
        r
    }

    /// Takes the exclusive borrow of the cell of `handle`, which must be of
    /// the category `kind`, and moves its value out for the caller to change
    /// and hand back with [`Heap::end_write`].
    pub fn begin_write(&mut self, handle: Shared, kind: ValueKind) -> (r: Result<
        (BorrowMut<Shared>, Payload),
        AccessError,
    >)
        ensures
            final(self)@.len() == old(self)@.len(),
            match write_model(old(self)@, handle, kind) {
                Ok(data) => r is Ok && r->Ok_0.0.cell == handle && r->Ok_0.1@ == data
                    && final(self)@[handle.index as int].counter == 1 && with_data(
                    with_counter(final(self)@, handle.index as int, 0),
                    handle.index as int,
                    data,
                ) == old(self)@,
                Err(error) => r == Err::<(BorrowMut<Shared>, Payload), _>(error)
                    && final(self)@ == old(self)@,
            },
    {
        let borrow = match self.borrow_mut(handle) {
            Ok(borrow) => borrow,
            Err(error) => {
                return Err(error);
            },
        };
        let actual = self.get(handle.index).kind();
        if actual != kind {
            self.release_mut(borrow);
            assert(self@ =~= old(self)@);
            return Err(AccessError::UnexpectedType { expected: kind, actual });
        }
        let data = self.replace(handle.index, Payload::String(String::new()));
        assert(with_data(with_counter(self@, handle.index as int, 0), handle.index as int, data@)
            =~= old(self)@);
        Ok((borrow, data))
    }

    /// Puts the changed value back into its cell and gives the exclusive
    /// borrow back.
    pub fn end_write(&mut self, borrow: BorrowMut<Shared>, data: Payload)
        requires
            borrow.cell.index < old(self)@.len(),
            old(self)@[borrow.cell.index as int].counter == 1,
        ensures
            final(self)@ == with_data(
                with_counter(old(self)@, borrow.cell.index as int, 0),
                borrow.cell.index as int,
                data@,
            ),
    {
        let _ = self.replace(borrow.cell.index, data);
        self.release_mut(borrow);
        assert(self@ =~= with_data(
            with_counter(old(self)@, borrow.cell.index as int, 0),
            borrow.cell.index as int,
            data@,
        ));
    }

    /// The guards of the cell at `index` add up to the magnitude of its
    /// counter.
    pub fn check(&self, index: usize)
        requires
            index < self@.len(),
        ensures
            self.cells@[index as int].access.balanced(),
    {
        self.cells[index].access.check();
    }

    /// The value of the cell at `index`.
    pub(crate) fn get(&self, index: usize) -> (data: &Payload)
        requires
            index < self@.len(),
        ensures
            *data == self.cells@[index as int].data,
            data@ == self@[index as int].data,
    {
        &self.cells[index].data
    }

    /// Puts `data` in the place of the value of the cell at `index`, and
    /// hands out the value that was there.
    pub(crate) fn replace(&mut self, index: usize, data: Payload) -> (previous: Payload)
        requires
            index < old(self)@.len(),
        ensures
            previous@ == old(self)@[index as int].data,
            final(self)@ == with_data(old(self)@, index as int, data@),
    {
        let ghost given = data@;
        let mut data = data;
        std::mem::swap(&mut self.cells[index].data, &mut data);
        assert(self@ =~= with_data(old(self)@, index as int, given));
        data
    }
}

} // verus!
