use blockchain::stack::Stack;

#[test]
fn stack_new() {
    let chain: Stack<bool> = Stack::new();
    assert_eq!(chain.len(), 0);
}

#[test]
fn stack_append() {
    let chain = Stack::new();
    assert_eq!(chain.head(), None);
    let chain = chain.append(false);
    assert_eq!(chain.head(), Some(&false));
}

#[test]
fn stack_tail() {
    let chain = Stack::new().append(1).append(2).append(3);
    let (head, chain) = chain.tail();
    assert_eq!(head, Some(&3));
    let (head, chain) = chain.tail();
    assert_eq!(head, Some(&2));
    let (head, chain) = chain.tail();
    assert_eq!(head, Some(&1));
    let (head, chain) = chain.tail();
    assert_eq!(head, None);
    let chain = chain.append(1);
    assert_eq!(chain.head(), Some(&1));
    let (_head, chain) = chain.tail();
    assert_eq!(chain.head(), None);
}

#[test]
fn stack_len() {
    let chain = Stack::new();
    assert_eq!(chain.len(), 0);
    let chain = chain.tail().1;
    assert_eq!(chain.len(), 0);
    let chain = chain.append(3).append(2).append(1);
    assert_eq!(chain.len(), 3);
    let chain = chain.tail().1;
    assert_eq!(chain.len(), 2);
    let chain = chain.tail().1;
    assert_eq!(chain.len(), 1);
    let chain = chain.tail().1;
    assert_eq!(chain.len(), 0);
    let chain = chain.tail().1;
    assert_eq!(chain.len(), 0);
    let chain = chain.append(3).append(2).append(1);
    assert_eq!(chain.len(), 3);
}

#[test]
fn append_then_tail_is_identity() {
    let s = Stack::new().append(1).append(2);
    let t = s.append(3).tail().1;
    assert_eq!(t.len(), s.len());
    let mut a = s.iter();
    let mut b = t.iter();
    assert_eq!(a.next(), b.next());
    assert_eq!(a.next(), b.next());
    assert_eq!(a.next(), None);
    assert_eq!(b.next(), None);
}

#[test]
fn tail_never_lengthens() {
    let s = Stack::new().append(5);
    assert!(s.len() >= s.tail().1.len());
    let e: Stack<i32> = Stack::new();
    assert!(e.len() >= e.tail().1.len());
}

#[test]
fn append_increases_length_by_one() {
    let s = Stack::new().append(9).append(8);
    assert_eq!(s.append(7).len(), s.len() + 1);
}

#[test]
fn stack_iter() {
    let chain = Stack::new();
    let mut iter = chain.iter();
    assert_eq!(iter.next(), None);
    assert_eq!(iter.next(), None);
    let chain = chain.append(1).append(2).append(3);
    let mut iter = chain.iter();
    assert_eq!(iter.next(), Some(&3));
    assert_eq!(iter.next(), Some(&2));
    assert_eq!(iter.next(), Some(&1));
    assert_eq!(iter.next(), None);
    assert_eq!(iter.next(), None);
}
