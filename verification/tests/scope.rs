use manual_share::{Scope, VecShareMut};

#[test]
fn scope_vec_borrow_inside() {
    let mut v = vec![1];

    let first = v.scope(|v| {
        let v_ref = v.borrow();
        let first = v_ref.as_slice()[0];
        v.try_return(v_ref).unwrap();
        first
    });
    assert_eq!(first, 1);
    assert_eq!(v, vec![1]);
}

#[test]
fn scope_tuple_adds_into_third() {
    let mut v1 = vec![1];
    let mut v2 = vec![2];
    let mut v3 = vec![30];

    (&mut v1, &mut v2, &mut VecShareMut(&mut v3)).scope(|(v1, v2, v3)| {
        let v1_ref = v1.borrow();
        let v2_ref = v2.borrow();
        let mut v3_ref = v3.split_off(0).unwrap();

        v1_ref
            .as_slice()
            .iter()
            .zip(v2_ref.as_slice().iter())
            .zip(v3_ref.as_slice_mut().iter_mut())
            .for_each(|((x1, x2), x3)| *x3 = x1 + x2);

        v1.try_return(v1_ref).unwrap();
        v2.try_return(v2_ref).unwrap();
        v3.try_unsplit_off(v3_ref).unwrap();
    });

    assert_eq!(v1, [1]);
    assert_eq!(v2, [2]);
    assert_eq!(v3, [3]);
}

#[test]
fn scope_box_restores_value() {
    let mut b = Box::new(5u32);
    let doubled = b.scope(|shared| {
        let r = shared.borrow();
        let d = *r.get() * 2;
        shared.try_return(r).unwrap();
        d
    });
    assert_eq!(doubled, 10);
    assert_eq!(*b, 5);
}

#[test]
fn scope_leaves_default_while_shared() {
    let mut v = vec![7, 8];
    let mut w = VecShareMut(&mut v);
    let shared = w.create_shared();
    assert!(w.0.is_empty());
    assert!(<VecShareMut<'_, i32> as Scope>::is_restorable(&shared));
    w.set_from_shared(shared);
    assert_eq!(v, vec![7, 8]);
}

#[test]
fn scope_not_restorable_while_lent() {
    let mut v = vec![1, 2];
    let mut shared = v.create_shared();
    let r = shared.borrow();
    assert!(!<Vec<i32> as Scope>::is_restorable(&shared));
    shared.try_return(r).unwrap();
    assert!(<Vec<i32> as Scope>::is_restorable(&shared));
    v.set_from_shared(shared);
    assert_eq!(v, vec![1, 2]);
}
