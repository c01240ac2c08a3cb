use manual_share::{SharedVec, SharedVecMut, SharedVecRef};

#[test]
fn zst() {
    let mut b1: SharedVec<()> = SharedVec::from_vec(Vec::new());
    let mut b2: SharedVec<()> = SharedVec::from_vec(Vec::new());

    let r11 = b1.borrow();
    let r12 = b1.borrow();

    let r2 = b2.borrow();

    b1.try_return(r2).unwrap();

    b1.try_return(r11).unwrap();
    let r12 = b1.try_return(r12).unwrap_err();

    b2.try_return(r12).unwrap();
}

#[test]
fn mut_zst() {
    let mut b1: SharedVecMut<()> = SharedVecMut::from_vec(Vec::new());
    let mut b2: SharedVecMut<()> = SharedVecMut::from_vec(Vec::new());

    let r11 = b1.split_off(0).unwrap();
    let r12 = b1.split_off(0).unwrap();

    let r2 = b2.split_off(0).unwrap();

    b1.try_unsplit_off(r2).unwrap();

    b1.try_unsplit_off(r11).unwrap();
    let r12 = b1.try_unsplit_off(r12).unwrap_err();

    b2.try_unsplit_off(r12).unwrap();
}

#[test]
fn vec_two_refs_then_back() {
    let values = vec![1, 2, 3];
    let mut shared = SharedVec::from_vec(values);

    let shared_ref = shared.borrow();
    assert_eq!(shared_ref.as_slice(), &[1, 2, 3]);
    let shared_ref2 = shared.borrow();
    assert_eq!(shared_ref2.as_slice(), &[1, 2, 3]);

    shared.try_return(shared_ref).unwrap();
    shared.try_return(shared_ref2).unwrap();

    let values = shared.try_into_vec().unwrap();
    assert_eq!(values, vec![1, 2, 3]);
}

#[test]
fn vec_ref_of_other_owner_is_refused() {
    let mut first = SharedVec::from_vec(vec![8]);
    let first_ref = first.borrow();
    first.try_return(first_ref).unwrap();

    let mut second = SharedVec::from_vec(vec![9]);
    let second_ref = second.borrow();
    let err = first.try_return(second_ref).unwrap_err();

    assert_eq!(err.as_slice(), &[9]);
    second.try_return(err).unwrap();
}

#[test]
fn vec_into_vec_waits_for_refs() {
    let mut values = SharedVec::from_vec(vec![0]);
    let reference = values.borrow();

    let mut values = values.try_into_vec().unwrap_err();
    assert_eq!(values.get(), &[0]);

    values.try_return(reference).unwrap();
    let values = values.try_into_vec().unwrap();

    assert_eq!(values, vec![0]);
}

#[test]
fn vec_zero_sized_length_mismatch_is_refused() {
    let mut short: SharedVec<()> = SharedVec::from_vec(vec![(); 2]);
    let mut long: SharedVec<()> = SharedVec::from_vec(vec![(); 3]);
    let r_short = short.borrow();
    let r_long = long.borrow();

    let r_long: SharedVecRef<()> = short.try_return(r_long).unwrap_err();
    assert_eq!(r_long.as_slice().len(), 3);
    long.try_return(r_long).unwrap();
    short.try_return(r_short).unwrap();
    assert_eq!(short.try_into_vec().unwrap().len(), 2);
    assert_eq!(long.try_into_vec().unwrap().len(), 3);
}

#[test]
fn vec_mut_part_written_then_joined() {
    let mut values = SharedVecMut::from_vec(vec![1, 2, 3, 4]);
    let mut part = values.split_off(2).unwrap();

    part.as_slice_mut().iter_mut().for_each(|v| *v += 1);

    assert_eq!(part.as_slice(), &[4, 5]);
    assert_eq!(values.as_slice(), &[1, 2]);
    assert!(values.try_unsplit_off(part).is_ok());
    assert_eq!(values.try_into_vec().unwrap(), vec![1, 2, 4, 5]);
}

#[test]
fn vec_mut_split_off_three_parts() {
    let mut values = SharedVecMut::from_vec(vec![1, 2, 3]);

    let part1 = values.split_off(2).unwrap();
    let part2 = values.split_off(1).unwrap();
    let part3 = values.split_off(0).unwrap();

    assert_eq!(part1.as_slice(), &[3]);
    assert_eq!(part2.as_slice(), &[2]);
    assert_eq!(part3.as_slice(), &[1]);
    assert!(values.as_slice().is_empty());

    values.try_unsplit_off(part3).unwrap();
    values.try_unsplit_off(part2).unwrap();
    values.try_unsplit_off(part1).unwrap();
    assert_eq!(values.try_into_vec().unwrap(), vec![1, 2, 3]);
}

#[test]
fn vec_mut_split_to_three_parts() {
    let mut values = SharedVecMut::from_vec(vec![1, 2, 3]);

    let part1 = values.split_to(1).unwrap();
    let part2 = values.split_to(1).unwrap();
    let part3 = values.split_to(1).unwrap();

    assert_eq!(part1.as_slice(), &[1]);
    assert_eq!(part2.as_slice(), &[2]);
    assert_eq!(part3.as_slice(), &[3]);

    values.try_unsplit_to(part3).unwrap();
    values.try_unsplit_to(part2).unwrap();
    values.try_unsplit_to(part1).unwrap();
    assert_eq!(values.try_into_vec().unwrap(), vec![1, 2, 3]);
}

#[test]
fn vec_mut_both_ends() {
    let mut values = SharedVecMut::from_vec(vec![1, 2, 3]);

    let part1 = values.split_to(1).unwrap();
    let part2 = values.split_off(1).unwrap();

    assert_eq!(values.as_slice(), &[2]);
    assert_eq!(part1.as_slice(), &[1]);
    assert_eq!(part2.as_slice(), &[3]);

    values.as_slice_mut()[0] = 20;
    values.try_unsplit_off(part2).unwrap();
    values.try_unsplit_to(part1).unwrap();
    assert_eq!(values.as_slice(), &[1, 20, 3]);
}

#[test]
fn vec_mut_split_past_end_is_refused() {
    let mut values = SharedVecMut::from_vec(vec![1, 2, 3]);
    assert!(values.split_off(4).is_none());
    assert!(values.split_to(4).is_none());
    let part = values.split_off(3).unwrap();
    assert!(part.as_slice().is_empty());
    assert!(values.split_to(4).is_none());
    values.try_unsplit_off(part).unwrap();
    assert_eq!(values.try_into_vec().unwrap(), vec![1, 2, 3]);
}

#[test]
fn vec_mut_non_adjacent_part_is_refused() {
    let mut values = SharedVecMut::from_vec(vec![1, 2, 3, 4]);
    let tail = values.split_off(2).unwrap();
    let middle = values.split_off(1).unwrap();
    // `tail` starts at 2, but the remaining region now ends at 1.
    let tail = values.try_unsplit_off(tail).unwrap_err();
    // A suffix does not join at the front.
    let middle = values.try_unsplit_to(middle).unwrap_err();
    values.try_unsplit_off(middle).unwrap();
    values.try_unsplit_off(tail).unwrap();
    assert_eq!(values.try_into_vec().unwrap(), vec![1, 2, 3, 4]);
}

#[test]
fn vec_mut_into_vec_waits_for_parts() {
    let mut values = SharedVecMut::from_vec(vec![5, 6]);
    let front = values.split_to(1).unwrap();
    let mut values = values.try_into_vec().unwrap_err();
    assert_eq!(values.as_slice(), &[6]);
    values.try_unsplit_to(front).unwrap();
    assert_eq!(values.try_into_vec().unwrap(), vec![5, 6]);
}

#[test]
fn vec_mut_part_of_other_owner_is_refused() {
    let mut a = SharedVecMut::from_vec(vec![1, 2]);
    let mut b = SharedVecMut::from_vec(vec![3, 4]);
    let pa = a.split_off(1).unwrap();
    let pb = b.split_off(1).unwrap();
    let pb = a.try_unsplit_off(pb).unwrap_err();
    a.try_unsplit_off(pa).unwrap();
    b.try_unsplit_off(pb).unwrap();
    assert_eq!(a.try_into_vec().unwrap(), vec![1, 2]);
    assert_eq!(b.try_into_vec().unwrap(), vec![3, 4]);
}

#[test]
fn vec_mut_zero_sized_length_mismatch_blocks_conversion() {
    let mut short: SharedVecMut<()> = SharedVecMut::from_vec(vec![(); 1]);
    let mut long: SharedVecMut<()> = SharedVecMut::from_vec(vec![(); 3]);
    let p_short = short.split_off(1).unwrap();
    let p_long = long.split_off(1).unwrap();
    // Zero-sized parts join any owner whose region ends where they start.
    short.try_unsplit_off(p_long).unwrap();
    long.try_unsplit_off(p_short).unwrap();
    // Now `short` holds 3 elements and `long` holds 1: neither matches its origin.
    let short = short.try_into_vec().unwrap_err();
    let long = long.try_into_vec().unwrap_err();
    assert_eq!(short.as_slice().len(), 3);
    assert_eq!(long.as_slice().len(), 1);
}

#[test]
fn vec_mut_fresh_converts_back() {
    let values = SharedVecMut::from_vec(vec![10, 20, 30]);
    assert_eq!(values.as_slice(), &[10, 20, 30]);
    assert_eq!(values.try_into_vec().unwrap(), vec![10, 20, 30]);
}

#[test]
fn vec_mut_rewritten_prefix_rejoins() {
    let mut values = SharedVecMut::from_vec(vec![1, 2, 3, 4]);
    let mut front = values.split_to(2).unwrap();
    front.as_slice_mut().copy_from_slice(&[7, 8]);
    values.try_unsplit_to(front).unwrap();
    assert_eq!(values.try_into_vec().unwrap(), vec![7, 8, 3, 4]);
}

#[test]
fn vec_keeps_its_allocation() {
    let v = vec![1u32, 2, 3];
    let addr = format!("{:p}", v.as_ptr());
    let mut shared = SharedVec::from_vec(v);
    let r = shared.borrow();
    assert_eq!(format!("{:p}", r.as_slice().as_ptr()), addr);
    shared.try_return(r).unwrap();
    let v = shared.try_into_vec().unwrap();
    assert_eq!(format!("{:p}", v.as_ptr()), addr);
}
