//! The access counter that guards a shared value cell.
//!
//! One signed machine word records how a value is currently borrowed:
//! zero when nobody holds it, `-n` while `n` shared guards are out, `1` while
//! the exclusive guard is out, and [`TAKEN`] once the value has been moved
//! away. Nothing ever waits: a request that cannot be granted is answered with
//! an error that carries a [`Snapshot`] of the counter.

use crate::text::{decimal, decimal_string};
use crate::value::ValueKind;
use vstd::prelude::*;
use vstd::string::*;

verus! {

/// The counter value that marks a cell whose value has been taken.
pub const TAKEN: isize = isize::MAX;

/// The counter of a cell as it stood when a request was refused.
#[derive(Clone, Copy, Debug, PartialEq, Eq, Structural)]
pub struct Snapshot(pub isize);

/// A shared borrow was refused.
#[derive(Clone, Copy, Debug, PartialEq, Eq, Structural)]
pub struct NotAccessibleRef(pub Snapshot);

/// An exclusive borrow was refused.
#[derive(Clone, Copy, Debug, PartialEq, Eq, Structural)]
pub struct NotAccessibleMut(pub Snapshot);

/// A take was refused.
#[derive(Clone, Copy, Debug, PartialEq, Eq, Structural)]
pub struct NotAccessibleTake(pub Snapshot);

impl Snapshot {
    /// How the snapshot reads in a message.
    pub open spec fn message(self) -> Seq<char> {
        if self.0 == 0 {
            "fully accessible"@
        } else if self.0 == 1 {
            "exclusively accessed"@
        } else if self.0 == TAKEN {
            "moved"@
        } else if self.0 < 0 {
            "shared by "@ + decimal((-self.0) as nat)
        } else {
            "invalidly marked"@
        }
    }

    /// Renders the snapshot for a message.
    pub fn to_string(&self) -> (s: String)
        ensures
            s@ == self.message(),
    {
        let n = self.0;
        if n == 0 {
            String::from_str("fully accessible")
        } else if n == 1 {
            String::from_str("exclusively accessed")
        } else if n == isize::MAX {
            String::from_str("moved")
        } else if n < 0 {
            let readers: usize = (-(n + 1)) as usize + 1;
            let mut s = String::from_str("shared by ");
            s.append(decimal_string(readers).as_str());
            s
        } else {
            String::from_str("invalidly marked")
        }
    }
}

impl NotAccessibleRef {
    /// How the error reads.
    pub open spec fn message(self) -> Seq<char> {
        "cannot read, value is "@ + self.0.message()
    }

    /// Renders the error.
    pub fn to_string(&self) -> (s: String)
        ensures
            s@ == self.message(),
    {
        let mut s = String::from_str("cannot read, value is ");
        s.append(self.0.to_string().as_str());
        s
    }
}

impl NotAccessibleMut {
    /// How the error reads.
    pub open spec fn message(self) -> Seq<char> {
        "cannot write, value is "@ + self.0.message()
    }

    /// Renders the error.
    pub fn to_string(&self) -> (s: String)
        ensures
            s@ == self.message(),
    {
        let mut s = String::from_str("cannot write, value is ");
        s.append(self.0.to_string().as_str());
        s
    }
}

impl NotAccessibleTake {
    /// How the error reads.
    pub open spec fn message(self) -> Seq<char> {
        "cannot take, value is "@ + self.0.message()
    }

    /// Renders the error.
    pub fn to_string(&self) -> (s: String)
        ensures
            s@ == self.message(),
    {
        let mut s = String::from_str("cannot take, value is ");
        s.append(self.0.to_string().as_str());
        s
    }
}

/// Why a shared cell could not be used as asked.
#[derive(Clone, Copy, Debug, PartialEq, Eq, Structural)]
#[allow(inconsistent_fields)]
pub enum AccessError {
    /// The cell holds another type of data than the handle promised.
    UnexpectedType { expected: ValueKind, actual: ValueKind },
    /// A shared borrow was refused.
    NotAccessibleRef { error: NotAccessibleRef },
    /// An exclusive borrow was refused.
    NotAccessibleMut { error: NotAccessibleMut },
    /// A take was refused.
    NotAccessibleTake { error: NotAccessibleTake },
    /// The handle names no cell of the heap it was used with.
    MissingCell { index: usize },
}

impl AccessError {
    /// How the error reads.
    pub open spec fn message(self) -> Seq<char> {
        match self {
            AccessError::UnexpectedType { expected, actual } => "expected data of type `"@
                + expected.name() + "`, but found `"@ + actual.name() + "`"@,
            AccessError::NotAccessibleRef { error } => error.message(),
            AccessError::NotAccessibleMut { error } => error.message(),
            AccessError::NotAccessibleTake { error } => error.message(),
            AccessError::MissingCell { index } => "no cell at index "@ + decimal(index as nat),
        }
    }

    /// Renders the error.
    pub fn to_string(&self) -> (s: String)
        ensures
            s@ == self.message(),
    {
        match self {
            AccessError::UnexpectedType { expected, actual } => {
                let mut s = String::from_str("expected data of type `");
                s.append(expected.as_str());
                s.append("`, but found `");
                s.append(actual.as_str());
                s.append("`");
                s
            },
            AccessError::NotAccessibleRef { error } => error.to_string(),
            AccessError::NotAccessibleMut { error } => error.to_string(),
            AccessError::NotAccessibleTake { error } => error.to_string(),
            AccessError::MissingCell { index } => {
                let mut s = String::from_str("no cell at index ");
                s.append(decimal_string(*index).as_str());
                s
            },
        }
    }
}

/// The obligation to give one shared borrow back. Only a successful
/// request at an [`Access`] makes one.
#[derive(Debug)]
pub struct RawBorrowedRef {
    token: (),
}

/// The obligation to give the exclusive borrow back. Only a successful
/// request at an [`Access`] makes one.
#[derive(Debug)]
pub struct RawBorrowedMut {
    token: (),
}

/// The obligation to undo a take. Only a successful request at an
/// [`Access`] makes one.
#[derive(Debug)]
pub struct RawTakeGuard {
    token: (),
}

/// How many guards a counter value stands for.
pub open spec fn holders(counter: int) -> nat {
    if counter == TAKEN as int {
        1
    } else if counter > 0 {
        counter as nat
    } else {
        (-counter) as nat
    }
}

/// Whether one more shared guard can be issued at this counter value.
pub open spec fn can_share(counter: int) -> bool {
    isize::MIN < counter <= 0
}

/// The access counter of one cell, with the guards that are out.
pub struct Access {
    state: isize,
    readers: Ghost<nat>,
    writer: Ghost<bool>,
    taker: Ghost<bool>,
}

impl Access {
    /// The counter ties in with the guards that are out: only the idle state,
    /// `n` readers, one writer, or one taker can be reached.
    #[verifier::type_invariant]
    pub closed spec fn inv(&self) -> bool {
        if self.taker@ {
            self.state == TAKEN && !self.writer@ && self.readers@ == 0
        } else if self.writer@ {
            self.state == 1 && self.state != TAKEN && self.readers@ == 0
        } else {
            self.state <= 0 && self.readers@ == -self.state
        }
    }

    /// The value of the counter.
    pub closed spec fn counter(&self) -> int {
        self.state as int
    }

    /// The number of shared guards that are out.
    pub closed spec fn shared_guards(&self) -> nat {
        self.readers@
    }

    /// Whether the exclusive guard is out.
    pub closed spec fn exclusive_guard(&self) -> bool {
        self.writer@
    }

    /// Whether the take guard is out.
    pub closed spec fn take_guard(&self) -> bool {
        self.taker@
    }

    /// The guards that are out add up to what the counter encodes, and the
    /// counter tells which guards they are.
    pub open spec fn balanced(&self) -> bool {
        &&& self.shared_guards() + (if self.exclusive_guard() {
            1nat
        } else {
            0
        }) + (if self.take_guard() {
            1nat
        } else {
            0
        }) == holders(self.counter())
        &&& self.take_guard() <==> self.counter() == TAKEN
        &&& self.exclusive_guard() <==> (self.counter() == 1 && self.counter() != TAKEN)
        &&& self.counter() > 0 ==> self.counter() == 1 || self.counter() == TAKEN
        &&& self.counter() <= 0 ==> self.shared_guards() == -self.counter()
    }

    /// A fresh counter: idle, no guard out.
    pub fn new() -> (access: Access)
        ensures
            access.counter() == 0,
            access.balanced(),
    {
        Access { state: 0, readers: Ghost(0), writer: Ghost(false), taker: Ghost(false) }
    }

    /// Every counter that a program holds is balanced: the guards that are
    /// out add up to the magnitude of the counter.
    pub fn check(&self)
        ensures
            self.balanced(),
    {
        proof {
            use_type_invariant(self);
        }
    }

    /// The counter as a snapshot.
    pub fn snapshot(&self) -> (snapshot: Snapshot)
        ensures
            snapshot.0 == self.counter(),
    {
        Snapshot(self.state)
    }

    /// Whether a shared guard could be issued now.
    pub fn is_shared(&self) -> (b: bool)
        ensures
            b == can_share(self.counter()),
    {
        proof {
            use_type_invariant(self);
        }
        isize::MIN < self.state && self.state <= 0
    }

    /// Whether the exclusive guard could be issued now.
    pub fn is_exclusive(&self) -> (b: bool)
        ensures
            b == (self.counter() == 0),
    {
        self.state == 0
    }

    /// Whether the value has been taken.
    pub fn is_taken(&self) -> (b: bool)
        ensures
            b == (self.counter() == TAKEN),
            b == self.take_guard(),
    {
        proof {
            use_type_invariant(self);
        }
        self.state == isize::MAX
    }

    /// Asks for one more shared guard.
    pub fn shared(&mut self) -> (r: Result<RawBorrowedRef, NotAccessibleRef>)
        ensures
            final(self).inv(),
            final(self).balanced(),
            can_share(old(self).counter()) ==> r is Ok
                && final(self).counter() == old(self).counter() - 1
                && final(self).shared_guards() == old(self).shared_guards() + 1,
            !can_share(old(self).counter()) ==> r == Err::<RawBorrowedRef, _>(
                NotAccessibleRef(Snapshot(old(self).counter() as isize)),
            ) && *final(self) == *old(self),
    {
        proof {
            use_type_invariant(&*self);
        }
        let state = self.state;
        if state > 0 || state == isize::MIN {
            return Err(NotAccessibleRef(Snapshot(state)));
        }
        let ghost readers = (self.readers@ + 1) as nat;
        *self = Access {
            state: state - 1,
            readers: Ghost(readers),
            writer: Ghost(false),
            taker: Ghost(false),
        };
        Ok(RawBorrowedRef { token: () })
    }

    /// Asks for the exclusive guard.
    pub fn exclusive(&mut self) -> (r: Result<RawBorrowedMut, NotAccessibleMut>)
        ensures
            final(self).inv(),
            final(self).balanced(),
            old(self).counter() == 0 ==> r is Ok && final(self).counter() == 1
                && final(self).exclusive_guard(),
            old(self).counter() != 0 ==> r == Err::<RawBorrowedMut, _>(
                NotAccessibleMut(Snapshot(old(self).counter() as isize)),
            ) && *final(self) == *old(self),
    {
        proof {
            use_type_invariant(&*self);
        }
        let state = self.state;
        if state != 0 {
            return Err(NotAccessibleMut(Snapshot(state)));
        }
        *self = Access { state: 1, readers: Ghost(0), writer: Ghost(true), taker: Ghost(false) };
        Ok(RawBorrowedMut { token: () })
    }

    /// Asks to take the value away.
    pub fn take(&mut self) -> (r: Result<RawTakeGuard, NotAccessibleTake>)
        ensures
            final(self).inv(),
            final(self).balanced(),
            old(self).counter() == 0 ==> r is Ok && final(self).counter() == TAKEN
                && final(self).take_guard(),
            old(self).counter() != 0 ==> r == Err::<RawTakeGuard, _>(
                NotAccessibleTake(Snapshot(old(self).counter() as isize)),
            ) && *final(self) == *old(self),
    {
        proof {
            use_type_invariant(&*self);
        }
        let state = self.state;
        if state != 0 {
            return Err(NotAccessibleTake(Snapshot(state)));
        }
        *self = Access {
            state: isize::MAX,
            readers: Ghost(0),
            writer: Ghost(false),
            taker: Ghost(true),
        };
        Ok(RawTakeGuard { token: () })
    }

    /// Gives one shared guard back.
    pub fn release_shared(&mut self, guard: RawBorrowedRef)
        requires
            old(self).shared_guards() > 0,
        ensures
            final(self).inv(),
            final(self).balanced(),
            final(self).counter() == old(self).counter() + 1,
            final(self).shared_guards() == old(self).shared_guards() - 1,
    {
        proof {
            use_type_invariant(&*self);
        }
        let ghost readers = (self.readers@ - 1) as nat;
        *self = Access {
            state: self.state + 1,
            readers: Ghost(readers),
            writer: Ghost(false),
            taker: Ghost(false),
        };
    }

    /// Gives the exclusive guard back.
    pub fn release_exclusive(&mut self, guard: RawBorrowedMut)
        requires
            old(self).exclusive_guard(),
        ensures
            final(self).inv(),
            final(self).balanced(),
            final(self).counter() == 0,
            !final(self).exclusive_guard(),
    {
        proof {
            use_type_invariant(&*self);
        }
        *self = Access::new();
    }

    /// Undoes a take.
    pub fn release_take(&mut self, guard: RawTakeGuard)
        requires
            old(self).take_guard(),
        ensures
            final(self).inv(),
            final(self).balanced(),
            final(self).counter() == 0,
            !final(self).take_guard(),
    {
        proof {
            use_type_invariant(&*self);
        }
        *self = Access::new();
    }
}

} // verus!
