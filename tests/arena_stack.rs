use lists::arena_stack::List;

#[test]
fn second_raw_basics() {
    let mut list = List::new();

    assert_eq!(list.pop(), None);

    list.push(1);
    list.push(2);
    list.push(3);

    assert_eq!(list.pop(), Some(3));
    assert_eq!(list.pop(), Some(2));

    list.push(4);
    list.push(5);

    assert_eq!(list.pop(), Some(5));
    assert_eq!(list.pop(), Some(4));

    assert_eq!(list.pop(), Some(1));
    assert_eq!(list.pop(), None);
}

#[test]
fn second_raw_peek() {
    let mut list = List::new();
    assert_eq!(list.peek(), None);
    assert_eq!(list.peek_mut(), None);
    list.push(1);
    list.push(2);
    list.push(3);

    assert_eq!(list.peek(), Some(&3));
    assert_eq!(list.peek_mut(), Some(&mut 3));
    list.peek_mut().map(|value| *value = 42);

    assert_eq!(list.peek(), Some(&42));
    assert_eq!(list.pop(), Some(42));
}

#[test]
fn second_raw_into_iter() {
    let mut list = List::new();
    list.push(1);
    list.push(2);
    list.push(3);

    let mut iter = list.into_iter();
    assert_eq!(iter.next(), Some(3));
    assert_eq!(iter.next(), Some(2));
    assert_eq!(iter.next(), Some(1));
    assert_eq!(iter.next(), None);
}

#[test]
fn second_raw_into_iter_for() {
    let mut list = List::new();
    list.push(1);
    list.push(2);
    list.push(3);

    let mut result = Vec::new();
    let mut iter = list.into_iter();
    while let Some(i) = iter.next() {
        result.push(i);
    }
    assert_eq!(result, vec![3, 2, 1]);
}

#[test]
fn into_iter_for_implicit() {
    let mut list = List::new();
    list.push(1);
    list.push(2);
    list.push(3);

    let mut result = Vec::new();
    let mut iter = list.into_iter();
    while let Some(i) = iter.next() {
        result.push(i);
    }
    assert_eq!(result, vec![3, 2, 1]);
}

#[test]
fn into_iter_for_ref() {
    let mut list = List::new();
    list.push(1);
    list.push(2);
    list.push(3);

    let mut result = Vec::new();
    let mut iter = list.iter();
    while let Some(i) = iter.next() {
        result.push(i);
    }
    let expected = vec![&3, &2, &1];
    assert_eq!(result, expected);
}

#[test]
fn into_iter_for_mut_ref() {
    let mut list = List::new();
    list.push(1);
    list.push(2);
    list.push(3);

    let mut result = Vec::new();
    let mut iter = list.iter_mut();
    while let Some(i) = iter.next() {
        result.push(*i);
    }
    let expected = vec![3, 2, 1];
    assert_eq!(result, expected);
}

#[test]
fn second_raw_iter() {
    let mut list = List::new();
    list.push(1);
    list.push(2);
    list.push(3);

    let mut iter = list.iter();
    assert_eq!(iter.next(), Some(&3));
    assert_eq!(iter.next(), Some(&2));
    assert_eq!(iter.next(), Some(&1));
    assert_eq!(iter.next(), None);
}

#[test]
fn second_raw_iter_mut() {
    let mut list = List::new();
    list.push(1);
    list.push(2);
    list.push(3);

    let mut iter = list.iter_mut();
    assert_eq!(iter.next(), Some(&mut 3));
    assert_eq!(iter.next(), Some(&mut 2));
    assert_eq!(iter.next(), Some(&mut 1));
    assert_eq!(iter.next(), None);
}

#[test]
fn arena_stack_iterators_stay_exhausted() {
    let mut list = List::new();
    list.push(9);
    let mut iter = list.iter();
    assert_eq!(iter.next(), Some(&9));
    assert_eq!(iter.next(), None);
    assert_eq!(iter.next(), None);
    let mut iter = list.iter_mut();
    assert_eq!(iter.next(), Some(&mut 9));
    assert_eq!(iter.next(), None);
    assert_eq!(iter.next(), None);
    let mut iter = list.into_iter();
    assert_eq!(iter.next(), Some(9));
    assert_eq!(iter.next(), None);
    assert_eq!(iter.next(), None);
}

#[test]
fn arena_stack_iter_mut_changes_are_popped() {
    let mut list = List::new();
    list.push(1);
    list.push(2);
    list.push(3);
    let mut iter = list.iter_mut();
    while let Some(e) = iter.next() {
        *e += 100;
    }
    assert_eq!(list.pop(), Some(103));
    assert_eq!(list.pop(), Some(102));
    assert_eq!(list.pop(), Some(101));
    assert_eq!(list.pop(), None);
    assert_eq!(list.pop(), None);
}

#[test]
fn arena_stack_teardown_cycles() {
    let empty: List<String> = List::new();
    drop(empty);

    let mut list = List::new();
    for i in 0..10 {
        list.push(format!("{}", i));
    }
    assert_eq!(list.pop(), Some(String::from("9")));
    drop(list);

    let mut list = List::new();
    list.push(String::from("a"));
    list.push(String::from("b"));
    assert_eq!(list.pop(), Some(String::from("b")));
    assert_eq!(list.pop(), Some(String::from("a")));
    assert_eq!(list.pop(), None);
    list.push(String::from("c"));
    assert_eq!(list.peek(), Some(&String::from("c")));
    drop(list);
}
