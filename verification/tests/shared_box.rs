use manual_share::{SharedBox, SharedBoxRef};

#[test]
fn box_borrow_twice_and_return() {
    let b = Box::new(13);
    let mut b = SharedBox::from_box(b);

    let r1 = b.borrow();
    assert_eq!(*r1.get(), 13);
    let r2 = b.borrow();
    assert_eq!(*r2.get() + 1, 14);

    b.try_return(r1).unwrap();
    b.try_return(r2).unwrap();

    let b = b.try_into_box().unwrap();
    assert_eq!(b, Box::new(13));
}

#[test]
fn box_return_then_release() {
    let mut b = SharedBox::new(0);
    let r = b.borrow();
    b.try_return(r).unwrap();
    assert_eq!(*b.try_into_box().unwrap(), 0);
}

#[test]
fn box_ref_of_other_owner_is_refused() {
    let mut b1 = SharedBox::from_box(Box::new(8));
    let r1 = b1.borrow();
    b1.try_return(r1).unwrap();

    let mut b2 = SharedBox::from_box(Box::new(9));
    let r2 = b2.borrow();

    let r2 = b1.try_return(r2).unwrap_err();
    assert_eq!(*r2.get(), 9);

    b2.try_return(r2).unwrap();
    assert_eq!(*b1.try_into_box().unwrap(), 8);
    assert_eq!(*b2.try_into_box().unwrap(), 9);
}

#[test]
fn box_into_box_waits_for_refs() {
    let b = Box::new(0);
    let mut b = SharedBox::from_box(b);

    let r = b.borrow();

    let mut b = b.try_into_box().unwrap_err();
    assert_eq!(*b.get(), 0);

    b.try_return(r).unwrap();

    let b = b.try_into_box().unwrap();
    assert_eq!(b, Box::new(0));
}

#[test]
fn box_ref_reads_value() {
    let mut b = SharedBox::new(42);
    let r = b.borrow();
    let value = *r.get();
    assert_eq!(value, 42);
    assert_eq!(*b.get(), 42);
    b.try_return(r).unwrap();
}

#[test]
fn box_return_without_loan_is_refused() {
    let mut b = SharedBox::new(String::from("x"));
    let r = b.borrow();
    b.try_return(r).unwrap();
    let r = b.borrow();
    let r2 = b.borrow();
    b.try_return(r).unwrap();
    b.try_return(r2).unwrap();
    // A reference given back twice is impossible; a fresh owner with no loan
    // refuses a reference of another owner even though both hold equal values.
    let mut other = SharedBox::new(String::from("x"));
    let r3 = b.borrow();
    let r3 = other.try_return(r3).unwrap_err();
    b.try_return(r3).unwrap();
    assert_eq!(b.try_into_box().unwrap().as_str(), "x");
}

#[test]
fn box_zero_sized_refs_interchange() {
    let mut b1: SharedBox<()> = SharedBox::new(());
    let mut b2: SharedBox<()> = SharedBox::from_box(Box::new(()));

    let r1 = b1.borrow();
    let r2 = b2.borrow();

    // Zero-sized values share one address: each owner takes the other's reference.
    b1.try_return(r2).unwrap();
    // With no reference out, one more is refused and handed back.
    let r1: SharedBoxRef<()> = b1.try_return(r1).unwrap_err();
    b2.try_return(r1).unwrap();

    assert!(b1.try_into_box().is_ok());
    assert!(b2.try_into_box().is_ok());
}

#[test]
fn box_many_loans_all_returned() {
    let mut b = SharedBox::new(vec![1u8, 2, 3]);
    let mut refs = Vec::new();
    for _ in 0..5 {
        refs.push(b.borrow());
    }
    let b_err = b.try_into_box().unwrap_err();
    let mut b = b_err;
    for r in refs {
        assert_eq!(r.get(), &vec![1u8, 2, 3]);
        b.try_return(r).unwrap();
    }
    assert_eq!(*b.try_into_box().unwrap(), vec![1u8, 2, 3]);
}

#[test]
fn box_keeps_its_allocation() {
    let b = Box::new(77u64);
    let addr = format!("{:p}", &*b);
    let mut shared = SharedBox::from_box(b);
    let r = shared.borrow();
    assert_eq!(format!("{:p}", r.get()), addr);
    shared.try_return(r).unwrap();
    let b = shared.try_into_box().unwrap();
    assert_eq!(format!("{:p}", &*b), addr);
    assert_eq!(*b, 77);
}
