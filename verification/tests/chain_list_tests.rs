//! The persistent-list behavior exercised through the stack that the chain
//! is built on, popping with `tail().1`.

use blockchain::stack::Stack;

#[test]
fn chain_new() {
    let chain: Stack<bool> = Stack::new();
    assert_eq!(chain.len(), 0);
}

#[test]
fn chain_append() {
    let chain = Stack::new();
    assert_eq!(chain.head(), None);
    let chain = chain.append(false);
    assert_eq!(chain.head(), Some(&false));
}

#[test]
fn chain_tail() {
    let chain = Stack::new().append(1).append(2).append(3);
    assert_eq!(chain.head(), Some(&3));
    let chain = chain.tail().1;
    assert_eq!(chain.head(), Some(&2));
    let chain = chain.tail().1;
    assert_eq!(chain.head(), Some(&1));
    let chain = chain.tail().1;
    assert_eq!(chain.head(), None);
    let chain = chain.tail().1;
    assert_eq!(chain.head(), None);
    let chain = chain.append(1);
    assert_eq!(chain.head(), Some(&1));
    let chain = chain.tail().1;
    assert_eq!(chain.head(), None);
}

#[test]
fn chain_len() {
    let chain = Stack::new();
    assert_eq!(chain.len(), 0);
    let chain = chain.tail().1;
    assert_eq!(chain.len(), 0);
    let chain = chain.append(3).append(2).append(1);
    assert_eq!(chain.len(), 3);
    let chain = chain.tail().1;
    assert_eq!(chain.len(), 2);
    let chain = chain.tail().1;
    assert_eq!(chain.len(), 1);
    let chain = chain.tail().1;
    assert_eq!(chain.len(), 0);
    let chain = chain.tail().1;
    assert_eq!(chain.len(), 0);
    let chain = chain.append(3).append(2).append(1);
    assert_eq!(chain.len(), 3);
}

#[test]
fn chain_iter() {
    let chain = Stack::new();
    let mut iter = chain.iter();
    assert_eq!(iter.next(), None);
    assert_eq!(iter.next(), None);
    let chain = chain.append(1).append(2).append(3);
    let mut iter = chain.iter();
    assert_eq!(iter.next(), Some(&3));
    assert_eq!(iter.next(), Some(&2));
    assert_eq!(iter.next(), Some(&1));
    assert_eq!(iter.next(), None);
    assert_eq!(iter.next(), None);
}
