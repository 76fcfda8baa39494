use lists::arena_queue::List;

#[test]
fn fifth_basics() {
    let mut list = List::new();

    assert_eq!(list.pop(), None);

    list.push(1);
    list.push(2);
    list.push(3);

    assert_eq!(list.pop(), Some(1));
    assert_eq!(list.pop(), Some(2));

    list.push(4);
    list.push(5);

    assert_eq!(list.pop(), Some(3));
    assert_eq!(list.pop(), Some(4));

    assert_eq!(list.pop(), Some(5));
    assert_eq!(list.pop(), None);

    list.push(6);
    list.push(7);

    assert_eq!(list.pop(), Some(6));
    assert_eq!(list.pop(), Some(7));
    assert_eq!(list.pop(), None);
}

#[test]
fn fifth_into_iter() {
    let mut list = List::new();
    list.push(1);
    list.push(2);
    list.push(3);

    let mut iter = list.into_iter();
    assert_eq!(iter.next(), Some(1));
    assert_eq!(iter.next(), Some(2));
    assert_eq!(iter.next(), Some(3));
    assert_eq!(iter.next(), None);
}

#[test]
fn fifth_iter() {
    let mut list = List::new();
    list.push(1);
    list.push(2);
    list.push(3);

    let mut iter = list.iter();
    assert_eq!(iter.next(), Some(&1));
    assert_eq!(iter.next(), Some(&2));
    assert_eq!(iter.next(), Some(&3));
    assert_eq!(iter.next(), None);
}

#[test]
fn fifth_iter_mut() {
    let mut list = List::new();
    list.push(1);
    list.push(2);
    list.push(3);

    let mut iter = list.iter_mut();
    assert_eq!(iter.next(), Some(&mut 1));
    assert_eq!(iter.next(), Some(&mut 2));
    assert_eq!(iter.next(), Some(&mut 3));
    assert_eq!(iter.next(), None);
}

#[test]
fn miri_food() {
    let mut list = List::new();

    list.push(1);
    list.push(2);
    list.push(3);

    assert!(list.pop() == Some(1));
    list.push(4);
    assert!(list.pop() == Some(2));
    list.push(5);

    assert!(list.peek() == Some(&3));
    list.push(6);
    list.peek_mut().map(|x| *x *= 10);
    assert!(list.peek() == Some(&30));
    assert!(list.pop() == Some(30));

    let mut iter = list.iter_mut();
    while let Some(elem) = iter.next() {
        *elem *= 100;
    }

    let mut iter = list.iter();
    assert_eq!(iter.next(), Some(&400));
    assert_eq!(iter.next(), Some(&500));
    assert_eq!(iter.next(), Some(&600));
    assert_eq!(iter.next(), None);
    assert_eq!(iter.next(), None);

    assert!(list.pop() == Some(400));
    list.peek_mut().map(|x| *x *= 10);
    assert!(list.peek() == Some(&5000));
    list.push(7);
}

#[test]
fn arena_queue_empty_pops_stay_empty() {
    let mut list: List<u8> = List::new();
    assert_eq!(list.pop(), None);
    assert_eq!(list.pop(), None);
    assert_eq!(list.peek(), None);
    assert_eq!(list.peek_mut(), None);
    let mut iter = list.iter();
    assert_eq!(iter.next(), None);
    assert_eq!(iter.next(), None);
}

#[test]
fn arena_queue_into_iter_stays_exhausted() {
    let mut list = List::new();
    list.push(1);
    let mut iter = list.into_iter();
    assert_eq!(iter.next(), Some(1));
    assert_eq!(iter.next(), None);
    assert_eq!(iter.next(), None);
}

#[test]
fn arena_queue_iter_mut_stays_exhausted() {
    let mut list = List::new();
    list.push(1);
    let mut iter = list.iter_mut();
    assert_eq!(iter.next(), Some(&mut 1));
    assert_eq!(iter.next(), None);
    assert_eq!(iter.next(), None);
}

#[test]
fn arena_queue_teardown_cycles() {
    let empty: List<String> = List::new();
    drop(empty);

    let mut list = List::new();
    for i in 0..10 {
        list.push(format!("{}", i));
    }
    assert_eq!(list.pop(), Some(String::from("0")));
    assert_eq!(list.pop(), Some(String::from("1")));
    drop(list);

    let mut list = List::new();
    list.push(String::from("a"));
    list.push(String::from("b"));
    assert_eq!(list.pop(), Some(String::from("a")));
    assert_eq!(list.pop(), Some(String::from("b")));
    assert_eq!(list.pop(), None);
    list.push(String::from("c"));
    list.push(String::from("d"));
    assert_eq!(list.peek(), Some(&String::from("c")));
    drop(list);
}

#[test]
fn arena_queue_reuses_slots_in_order() {
    let mut list = List::new();
    for round in 0..50 {
        list.push(round * 2);
        list.push(round * 2 + 1);
        assert_eq!(list.pop(), Some(round));
    }
    let mut expected = 50;
    while let Some(v) = list.pop() {
        assert_eq!(v, expected);
        expected += 1;
    }
    assert_eq!(expected, 100);
}
