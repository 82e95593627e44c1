use lists::Stack;

#[test]
fn dropping_a_long_chain_does_not_overflow_the_call_stack() {
    let mut stack: Stack<u64> = Stack::new();
    for i in 0..100_000u64 {
        stack.push(i);
    }
    drop(stack);
}

#[test]
fn dropping_a_partly_drained_owning_producer_releases_the_rest() {
    let mut stack: Stack<u64> = Stack::new();
    for i in 0..100_000u64 {
        stack.push(i);
    }
    let mut it = stack.into_iter();
    assert_eq!(it.next(), Some(99_999));
    assert_eq!(it.next(), Some(99_998));
    drop(it);
}
