//! Shareable mutable containers and a reference-counted box, with their
//! behaviour stated as contracts.
//!
//! Every mutation goes through an exclusive handle (`&mut`), so that each
//! operation states exactly how the contents before and after relate:
//!
//! - [`Cell`] moves whole values in and out.
//! - [`RefCell`] tracks shared and exclusive borrows in a runtime state and
//!   hands out guard tokens that are given back to release the borrow.
//! - [`Rc`] and [`Weak`] are handles on an [`RcBox`], which counts strong and
//!   weak handles and drops the payload and the box at the right moments.

pub mod cell;
pub mod rc;
pub mod refcell;

pub use cell::Cell;
pub use rc::{Rc, RcBox, Weak};
pub use refcell::{BorrowError, BorrowMutError, BorrowState, Ref, RefCell, RefMut};

