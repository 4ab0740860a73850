use pointer::{BorrowError, BorrowMutError, BorrowState, RefCell};

#[test]
fn refcell_new() {
    let _c = RefCell::new(5);
}

#[test]
fn refcell_into_inner() {
    let c = RefCell::new(5);
    let _five = c.into_inner();
}

#[test]
fn refcell_as_ptr() {
    let c = RefCell::new(5);
    let _ptr = c.as_ptr();
}

#[test]
fn refcell_replace() {
    let mut cell = RefCell::new(5);
    let old_value = cell.replace(6);
    assert_eq!(old_value, 5);
    let b = cell.borrow();
    assert_eq!(*b.deref(&cell), 6);
    b.release(&mut cell);
}

#[test]
fn replace_with() {
    let mut cell = RefCell::new(5);
    let old_value = cell.replace_with(|&old| old + 1);
    assert_eq!(old_value, 5);
    let b = cell.borrow();
    assert_eq!(*b.deref(&cell), 6);
    b.release(&mut cell);
}

#[test]
fn refcell_swap() {
    let mut cell = RefCell::new(5);
    let mut dest = RefCell::new(6);
    cell.swap(&mut dest);
    let b = cell.borrow();
    assert_eq!(*b.deref(&cell), 6);
    b.release(&mut cell);
    let d = dest.borrow();
    assert_eq!(*d.deref(&dest), 5);
    d.release(&mut dest);
}

#[test]
fn borrow() {
    let mut c = RefCell::new(5);
    let borrowed_five = c.borrow();
    let borrowed_five2 = c.borrow();
    assert_eq!(*borrowed_five.deref(&c), *borrowed_five2.deref(&c));
    borrowed_five.release(&mut c);
    borrowed_five2.release(&mut c);
}

#[test]
#[should_panic(expected = "already mutably borrowed")]
fn panic_borrow() {
    let mut c = RefCell::new(5);
    let _m = c.borrow_mut();
    let _b = c.borrow();
}

#[test]
fn try_borrow() {
    let mut c = RefCell::new(5);
    {
        let m = c.borrow_mut();
        assert!(c.try_borrow().is_err());
        m.release(&mut c);
    }
    {
        let b = c.borrow();
        let second = c.try_borrow();
        assert!(second.is_ok());
        second.unwrap().release(&mut c);
        b.release(&mut c);
    }
}

#[test]
fn borrow_mut() {
    let mut c = RefCell::new("hello".to_owned());
    let m = c.borrow_mut();
    *m.deref_mut(&mut c) = "bonjour".to_owned();
    m.release(&mut c);
    assert_eq!(c.into_inner(), "bonjour");
}

#[test]
#[should_panic(expected = "already borrowed")]
fn panic_borrow_mut() {
    let mut c = RefCell::new(5);
    let _m = c.borrow();
    let _b = c.borrow_mut();
}

#[test]
fn try_borrow_mut() {
    let mut c = RefCell::new(5);
    {
        let b = c.borrow();
        assert!(c.try_borrow_mut().is_err());
        b.release(&mut c);
    }
    assert!(c.try_borrow_mut().is_ok());
}

#[test]
fn partial_cmp() {
    assert!(RefCell::new(5) == RefCell::new(5));
}

#[test]
fn state_is_idle_when_no_guard_is_live() {
    let mut c = RefCell::new(1);
    assert_eq!(c.borrow_state(), BorrowState::Idle);
    let a = c.borrow();
    let b = c.borrow();
    assert_eq!(c.borrow_state(), BorrowState::Shared(2));
    a.release(&mut c);
    assert_eq!(c.borrow_state(), BorrowState::Shared(1));
    b.release(&mut c);
    assert_eq!(c.borrow_state(), BorrowState::Idle);
    let m = c.borrow_mut();
    assert_eq!(c.borrow_state(), BorrowState::Exclusive);
    m.release(&mut c);
    assert_eq!(c.borrow_state(), BorrowState::Idle);
}

#[test]
fn try_borrow_mut_succeeds_only_when_idle() {
    let mut c = RefCell::new(1);
    let b = c.borrow();
    assert!(c.try_borrow_mut().is_err());
    assert_eq!(c.borrow_state(), BorrowState::Shared(1));
    b.release(&mut c);
    let m = c.try_borrow_mut();
    assert!(m.is_ok());
    assert!(c.try_borrow_mut().is_err());
    assert_eq!(c.borrow_state(), BorrowState::Exclusive);
    m.ok().unwrap().release(&mut c);
    assert_eq!(c.borrow_state(), BorrowState::Idle);
}

#[test]
fn borrow_then_release_leaves_state_unchanged() {
    let mut c = RefCell::new(1);
    let g = c.borrow();
    assert_eq!(c.borrow_state(), BorrowState::Shared(1));
    let h = c.borrow();
    h.release(&mut c);
    assert_eq!(c.borrow_state(), BorrowState::Shared(1));
    g.release(&mut c);
    let h = c.borrow();
    h.release(&mut c);
    assert_eq!(c.borrow_state(), BorrowState::Idle);
}

#[test]
fn last_shared_release_gives_idle_not_zero_shared() {
    let mut c = RefCell::new(1);
    let guards = vec![c.borrow(), c.borrow(), c.borrow()];
    for g in guards {
        g.release(&mut c);
    }
    assert_eq!(c.borrow_state(), BorrowState::Idle);
    assert!(c.try_borrow_mut().is_ok());
}

#[test]
fn shared_borrows_then_exclusive_refused() {
    let mut c = RefCell::new(5);
    {
        let a = c.borrow();
        let b = c.borrow();
        assert_eq!(*a.deref(&c), 5);
        assert_eq!(*b.deref(&c), 5);
        a.release(&mut c);
        b.release(&mut c);
    }
    {
        let m = c.borrow_mut();
        assert!(c.try_borrow().is_err());
        m.release(&mut c);
    }
}

#[test]
fn take_leaves_default() {
    let mut c = RefCell::new(String::from("x"));
    assert_eq!(c.take(), "x");
    assert_eq!(c.into_inner(), "");
}

#[test]
fn default_cell_is_idle_with_default_payload() {
    let c: RefCell<u8> = RefCell::default();
    assert_eq!(c.borrow_state(), BorrowState::Idle);
    assert_eq!(c.into_inner(), 0);
}

#[test]
fn get_mut_writes_payload() {
    let mut c = RefCell::new(3);
    *c.get_mut() = 4;
    assert_eq!(c.into_inner(), 4);
}

#[test]
fn error_messages() {
    assert_eq!(BorrowError.message(), "already mutably borrowed");
    assert_eq!(BorrowMutError.message(), "already borrowed");
}

#[test]
fn unequal_payloads_compare_unequal() {
    assert!(RefCell::new(5) != RefCell::new(6));
}

#[test]
fn clone_is_unborrowed_copy_of_payload() {
    let mut c = RefCell::new(String::from("p"));
    let g = c.borrow();
    let d = c.clone();
    g.release(&mut c);
    assert_eq!(d.borrow_state(), BorrowState::Idle);
    assert_eq!(d.into_inner(), "p");
}

#[test]
fn ordering_compares_payloads() {
    assert!(RefCell::new(1) < RefCell::new(2));
    assert!(RefCell::new(3) >= RefCell::new(3));
    assert_eq!(
        RefCell::new(2).partial_cmp(&RefCell::new(1)),
        Some(std::cmp::Ordering::Greater)
    );
}

#[test]
fn from_value_is_unborrowed() {
    let c: RefCell<i32> = RefCell::from(9);
    assert_eq!(c.borrow_state(), BorrowState::Idle);
    assert_eq!(c.into_inner(), 9);
}
