use pointer::Cell;

#[derive(Debug, Copy, Clone, PartialEq)]
struct Color(u8, u8, u8, u8);

#[test]
fn cell_new() {
    let _c = Cell::new(5);
}

#[test]
fn set() {
    let mut c = Cell::new(5);
    c.set(10);
    assert_eq!(c.get(), 10);
}

#[test]
fn cell_swap() {
    let mut c1 = Cell::new(5i32);
    let mut c2 = Cell::new(10i32);
    c1.swap(&mut c2);
    assert_eq!(10, c1.get());
    assert_eq!(5, c2.get());
}

#[test]
fn cell_replace() {
    let mut cell = Cell::new(5);
    assert_eq!(cell.get(), 5);
    assert_eq!(cell.replace(10), 5);
    assert_eq!(cell.get(), 10);
}

#[test]
fn cell_into_inner() {
    let c = Cell::new(5);
    let five = c.into_inner();
    assert_eq!(five, 5);
}

#[test]
fn get() {
    let c = Cell::new(5);
    let five = c.get();
    assert_eq!(five, 5);
}

#[test]
fn update() {
    let mut c = Cell::new(5);
    let new = c.update(|x| x + 1);
    assert_eq!(new, 6);
    assert_eq!(c.get(), 6);
}

#[test]
fn cell_as_ptr() {
    let c = Cell::new(5);
    let ptr = c.as_ptr();
    assert_eq!(*ptr, 5);
    assert_eq!(c.get(), 5);
}

#[test]
fn get_mut() {
    let mut c = Cell::new(5);
    *c.get_mut() += 1;
    assert_eq!(c.get(), 6);
}

#[test]
fn take() {
    let mut c = Cell::new(5);
    let five = c.take();
    assert_eq!(five, 5);
    assert_eq!(c.into_inner(), 0);
}

#[test]
fn cell_str() {
    let mut cell = Cell::new("John Doe");
    assert_eq!(cell.get(), "John Doe");
    cell.set("Jane Doe");
    assert_eq!(cell.get(), "Jane Doe");
}

#[test]
fn cell_number() {
    let mut cell = Cell::new(10);
    assert_eq!(cell.get(), 10);
    cell.set(20);
    assert_eq!(cell.get(), 20);
}

#[test]
fn cell_obj() {
    let mut color = Cell::new(Color(0, 0, 0, 0));
    assert_eq!(color.get(), Color(0, 0, 0, 0));
    color.set(Color(128, 128, 128, 1));
    assert_eq!(color.get(), Color(128, 128, 128, 1));
}

#[test]
fn set_then_into_inner_sees_new_value() {
    let mut c = Cell::new(String::from("old"));
    c.set(String::from("new"));
    assert_eq!(c.into_inner(), "new");
}

#[test]
fn swap_exchanges_values_of_owned_type() {
    let mut a = Cell::new(vec![1, 2]);
    let mut b = Cell::new(vec![3]);
    a.swap(&mut b);
    assert_eq!(a.into_inner(), vec![3]);
    assert_eq!(b.into_inner(), vec![1, 2]);
}

#[test]
fn into_inner_of_new_is_value() {
    let c = Cell::new(String::from("gadget"));
    assert_eq!(c.into_inner(), "gadget");
}

#[test]
fn replace_twice_returns_each_predecessor() {
    let mut c = Cell::new(1);
    let first = c.replace(2);
    let second = c.replace(3);
    assert_eq!(first, 1);
    assert_eq!(second, 2);
    assert_eq!(c.get(), 3);
}

#[test]
fn take_on_default_cell_returns_default() {
    let mut c: Cell<u32> = Cell::default();
    assert_eq!(c.take(), 0);
    assert_eq!(c.get(), 0);
    let mut s: Cell<String> = Cell::default();
    assert_eq!(s.take(), "");
}

#[test]
fn get_mut_write_becomes_value() {
    let mut c = Cell::new(String::from("a"));
    c.get_mut().push('b');
    assert_eq!(c.into_inner(), "ab");
}

#[test]
fn update_returns_new_value() {
    let mut c = Cell::new(7u8);
    assert_eq!(c.update(|x| x * 2), 14);
    assert_eq!(c.get(), 14);
}

#[test]
fn cells_compare_by_value() {
    assert!(Cell::new(4) == Cell::new(4));
    assert!(Cell::new(4) != Cell::new(5));
}

#[test]
fn from_value() {
    let c: Cell<u8> = Cell::from(3);
    assert_eq!(c.get(), 3);
}
