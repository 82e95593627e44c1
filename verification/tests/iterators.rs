use lists::Stack;

#[test]
fn iter_yields_head_to_tail_without_change() {
    let mut stack: Stack<u32> = Stack::new();
    stack.push(1);
    stack.push(2);
    stack.push(3);

    let mut it = stack.iter();
    assert_eq!(it.next(), Some(&3));
    assert_eq!(it.next(), Some(&2));
    assert_eq!(it.next(), Some(&1));
    assert_eq!(it.next(), None);
    drop(it);

    assert_eq!(stack.pop(), Some(3));
    assert_eq!(stack.pop(), Some(2));
    assert_eq!(stack.pop(), Some(1));
}

#[test]
fn into_iter_matches_pop_order_then_stays_empty() {
    let mut reference: Stack<u32> = Stack::new();
    let mut consumed: Stack<u32> = Stack::new();
    for i in 0..10u32 {
        reference.push(i * i);
        consumed.push(i * i);
    }

    let mut it = consumed.into_iter();
    loop {
        let by_pop = reference.pop();
        let by_iter = it.next();
        assert_eq!(by_iter, by_pop);
        if by_pop.is_none() {
            break;
        }
    }
    assert_eq!(it.next(), None);
    assert_eq!(it.next(), None);
}

#[test]
fn iter_mut_writes_are_seen_afterwards() {
    let mut stack: Stack<u32> = Stack::new();
    stack.push(1);
    stack.push(2);
    stack.push(3);

    let mut it = stack.iter_mut();
    while let Some(item) = it.next() {
        *item *= 10;
    }

    assert_eq!(stack.pop(), Some(30));
    assert_eq!(stack.pop(), Some(20));
    assert_eq!(stack.pop(), Some(10));
    assert_eq!(stack.pop(), None);
}

#[test]
fn iter_mut_yields_head_to_tail_one_at_a_time() {
    let mut stack: Stack<u32> = Stack::new();
    stack.push(1);
    stack.push(2);

    let mut it = stack.iter_mut();
    let first = it.next();
    assert_eq!(first, Some(&mut 2));
    let second = it.next();
    assert_eq!(second, Some(&mut 1));
    assert_eq!(it.next(), None);
}

#[test]
fn exhausted_producers_keep_returning_none() {
    let mut stack: Stack<u32> = Stack::new();
    stack.push(9);

    let mut it = stack.iter();
    assert_eq!(it.next(), Some(&9));
    assert_eq!(it.next(), None);
    assert_eq!(it.next(), None);
    assert_eq!(it.next(), None);
    drop(it);

    let mut mit = stack.iter_mut();
    assert_eq!(mit.next(), Some(&mut 9));
    assert_eq!(mit.next(), None);
    assert_eq!(mit.next(), None);
    drop(mit);

    let mut oit = stack.into_iter();
    assert_eq!(oit.next(), Some(9));
    assert_eq!(oit.next(), None);
    assert_eq!(oit.next(), None);
}

#[test]
fn iterators_on_empty_stack_are_exhausted_at_once() {
    let mut stack: Stack<u8> = Stack::new();
    assert_eq!(stack.iter().next(), None);
    assert_eq!(stack.iter_mut().next(), None);
    assert_eq!(stack.into_iter().next(), None);
}
