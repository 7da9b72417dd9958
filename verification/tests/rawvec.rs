use midend::typeck::rawvec::RawVec;

#[test]
fn raw_vec() {
    let mut list = RawVec::with_cap(5);

    list.push(10);
    list.push(9);
    list.push(8);
    list.push(7);

    assert_eq!(list.pop(), Some(7));
    assert_eq!(list.pop(), Some(8));
    assert_eq!(list.pop(), Some(9));

    for i in list.slice().iter() {
        assert_eq!(10, *i);
    }
}

#[test]
fn raw_vec_macro() {
    let mut list = RawVec::from_vec(vec![1, 2, 3, 4, 5, 6, 7]);

    assert_eq!(list.pop(), Some(7));
}

#[test]
fn raw_vec_iter_mut() {
    let mut list = RawVec::from_vec(vec![1, 2, 3, 4, 5, 6, 7]);
    let mut expected = RawVec::from_vec(vec![1, 2, 3, 4, 5, 6, 7]);

    for x in list.slice_mut().iter_mut() {
        *x += 1;
    }
    for i in list.iter() {
        assert_eq!(expected.remove(0) + 1, *i)
    }
}

#[test]
fn raw_vec_zero_init() {
    let mut list = RawVec::with_cap(0);

    list.push(10);
    list.push(9);
    list.push(8);
    list.push(7);

    assert_eq!(list.pop(), Some(7));
    assert_eq!(list.pop(), Some(8));
    assert_eq!(list.pop(), Some(9));

    for i in list.slice().iter() {
        assert_eq!(10, *i);
    }
}

#[test]
fn raw_vec_from() {
    let list = vec![1, 2, 3, 4, 5, 6, 7];
    let raw = RawVec::from_vec(list);
    let _iter = raw.into_iter().take(1).collect::<Vec<_>>();
}

#[test]
fn raw_vec_from_empty() {
    let list: Vec<u8> = vec![];
    let _raw = RawVec::from_vec(list);
}

#[test]
fn raw_vec_capacity_grows_by_the_rule() {
    let mut list: RawVec<u8> = RawVec::with_cap(0);
    assert_eq!(list.cap(), 0);
    assert!(list.is_empty());
    list.push(1);
    assert_eq!(list.cap(), 4);
    assert_eq!(list.len(), 1);
    list.push(2);
    list.push(3);
    list.push(4);
    assert_eq!(list.cap(), 4);
    list.push(5);
    assert_eq!(list.cap(), 5);
    list.grow(3);
    assert_eq!(list.cap(), 5);
    list.grow(9);
    assert_eq!(list.cap(), 9);
    assert_eq!(list.remove(1), 2);
    assert_eq!(list.slice(), &[1, 3, 4, 5]);
    assert_eq!(*list.get(2), 4);
}
