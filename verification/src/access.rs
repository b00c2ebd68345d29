//! Access arbitration for one column: any number of shared views, or one
//! exclusive view, never both.

use vstd::prelude::*;

verus! {

/// Why a view of a column was refused.
#[derive(Debug, Clone, Copy, PartialEq, Eq, Structural)]
pub enum BorrowError {
    /// An exclusive view was asked for while shared views are outstanding.
    AlreadyBorrowed,
    /// A view was asked for while the exclusive view is outstanding.
    AlreadyMutablyBorrowed,
    /// A shared view was asked for while as many are outstanding as the
    /// counter can hold.
    TooManyBorrows,
}

/// The views of one column that are outstanding.
#[derive(Debug, Clone, Copy, PartialEq, Eq, Structural)]
pub enum Access {
    /// No view is outstanding.
    Free,
    /// This many shared views are outstanding; never zero.
    Shared(usize),
    /// The exclusive view is outstanding.
    Exclusive,
}

impl Access {
    /// A count of shared views is never zero: that state is `Free`.
    pub open spec fn wf(self) -> bool {
        self matches Access::Shared(count) ==> count > 0
    }

    /// What a request for a shared view meets: the state once it is
    /// granted, or the reason why it is refused.
    pub open spec fn shared(self) -> Result<Access, BorrowError> {
        match self {
            Access::Free => Ok(Access::Shared(1)),
            Access::Shared(count) => if count < usize::MAX {
                Ok(Access::Shared((count + 1) as usize))
            } else {
                Err(BorrowError::TooManyBorrows)
            },
            Access::Exclusive => Err(BorrowError::AlreadyMutablyBorrowed),
        }
    }

    /// What a request for the exclusive view meets: the state once it is
    /// granted, or the reason why it is refused.
    pub open spec fn locked(self) -> Result<Access, BorrowError> {
        match self {
            Access::Free => Ok(Access::Exclusive),
            Access::Shared(_) => Err(BorrowError::AlreadyBorrowed),
            Access::Exclusive => Err(BorrowError::AlreadyMutablyBorrowed),
        }
    }

    /// The state once one shared view is handed back. Where none is
    /// outstanding there is nothing to hand back, and the state stays.
    pub open spec fn unshared(self) -> Access {
        match self {
            Access::Shared(count) => if count > 1 {
                Access::Shared((count - 1) as usize)
            } else {
                Access::Free
            },
            other => other,
        }
    }

    /// The state once the exclusive view is handed back. Where it is not
    /// outstanding the state stays.
    pub open spec fn unlocked(self) -> Access {
        match self {
            Access::Exclusive => Access::Free,
            other => other,
        }
    }

    /// Grants one more shared view, or refuses and changes nothing.
    pub fn share(&mut self) -> (granted: Result<(), BorrowError>)
        requires
            old(self).wf(),
        ensures
            final(self).wf(),
            match old(self).shared() {
                Ok(next) => granted == Ok::<(), BorrowError>(()) && *final(self) == next,
                Err(reason) => granted == Err::<(), BorrowError>(reason) && *final(self) == *old(
                    self,
                ),
            },
    {
        match *self {
            Access::Free => {
                *self = Access::Shared(1);
                Ok(())
            },
            Access::Shared(count) => {
                if count < usize::MAX {
                    *self = Access::Shared(count + 1);
                    Ok(())
                } else {
                    Err(BorrowError::TooManyBorrows)
                }
            },
            Access::Exclusive => Err(BorrowError::AlreadyMutablyBorrowed),
        }
    }

    /// Grants the exclusive view, or refuses and changes nothing.
    pub fn lock(&mut self) -> (granted: Result<(), BorrowError>)
        requires
            old(self).wf(),
        ensures
            final(self).wf(),
            match old(self).locked() {
                Ok(next) => granted == Ok::<(), BorrowError>(()) && *final(self) == next,
                Err(reason) => granted == Err::<(), BorrowError>(reason) && *final(self) == *old(
                    self,
                ),
            },
    {
        match *self {
            Access::Free => {
                *self = Access::Exclusive;
                Ok(())
            },
            Access::Shared(_) => Err(BorrowError::AlreadyBorrowed),
            Access::Exclusive => Err(BorrowError::AlreadyMutablyBorrowed),
        }
    }

    /// Takes back one shared view.
    pub fn unshare(&mut self)
        requires
            old(self).wf(),
        ensures
            final(self).wf(),
            *final(self) == old(self).unshared(),
    {
        match *self {
            Access::Shared(count) => {
                if count > 1 {
                    *self = Access::Shared(count - 1);
                } else {
                    *self = Access::Free;
                }
            },
            _ => {},
        }
    }

    /// Takes back the exclusive view.
    pub fn unlock(&mut self)
        requires
            old(self).wf(),
        ensures
            final(self).wf(),
            *final(self) == old(self).unlocked(),
    {
        match *self {
            Access::Exclusive => {
                *self = Access::Free;
            },
            _ => {},
        }
    }
}

} // verus!
