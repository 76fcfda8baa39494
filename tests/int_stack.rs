use lists::int_stack::List;

#[test]
fn first_basics() {
    let mut list = List::new();

    assert_eq!(list.pop(), None);

    list.push(1);
    list.push(2);
    list.push(3);

    assert_eq!(list.pop(), Some(3));
    assert_eq!(list.pop(), Some(2));

    list.push(4);
    list.push(5);

    assert_eq!(list.pop(), Some(5));
    assert_eq!(list.pop(), Some(4));

    assert_eq!(list.pop(), Some(1));
    assert_eq!(list.pop(), None);
}

#[test]
fn int_stack_empty_pops_stay_empty() {
    let mut list = List::new();
    assert_eq!(list.pop(), None);
    assert_eq!(list.pop(), None);
    list.push(-8);
    assert_eq!(list.pop(), Some(-8));
    assert_eq!(list.pop(), None);
    assert_eq!(list.pop(), None);
}

#[test]
fn int_stack_long_teardown() {
    let mut list = List::new();
    for i in 0..200_000 {
        list.push(i);
    }
    assert_eq!(list.pop(), Some(199_999));
    drop(list);
}
