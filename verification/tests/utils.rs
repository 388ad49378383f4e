use thruster::utils;

#[test]
fn partition() {
    let mut v = vec![1, 2, 3, 4, 5, 6, 7, 8, 9];
    let ret = utils::partition(&mut v, |n: &i32| n % 2 == 0);
    assert_eq!(v, vec![8, 2, 6, 4, 5, 3, 7, 1, 9]);
    assert_eq!(ret, 4);

    let mut v = vec![9, 9, 9, 9, 1, 1, 2, 2];
    let ret = utils::partition(&mut v, |n: &i32| n % 2 == 0);
    assert_eq!(ret, 2);
}

#[test]
fn partition_range_leaves_outside_alone() {
    let mut v = vec![5, 1, 2, 3, 4, 6];
    let ret = utils::partition_range(&mut v, 1, 5, |n: &i32| n % 2 == 0);
    assert_eq!(v[0], 5);
    assert_eq!(v[5], 6);
    assert_eq!(ret, 3);
    assert!(v[1..3].iter().all(|n| n % 2 == 0));
    assert!(v[3..5].iter().all(|n| n % 2 == 1));
}

#[test]
fn stacks_and_queues() {
    let mut s = thruster::queue_systems::FastStack::new();
    assert_eq!(s.pop(), None);
    s.push(1);
    s.push(2);
    s.push(3);
    assert_eq!(s.pop(), Some(3));
    assert_eq!(s.pop(), Some(2));
    s.push(4);
    assert_eq!(s.pop(), Some(4));
    assert_eq!(s.pop(), Some(1));
    assert_eq!(s.pop(), None);

    let mut q = thruster::queue_systems::StackQueue::new();
    assert_eq!(q.pop(), None);
    q.push(1);
    q.push(2);
    q.push(3);
    assert_eq!(q.pop(), Some(1));
    q.push(4);
    assert_eq!(q.pop(), Some(2));
    assert_eq!(q.pop(), Some(3));
    assert_eq!(q.pop(), Some(4));
    assert_eq!(q.pop(), None);
}

#[test]
fn pixel_positions() {
    let p = thruster::pixel::Pixel::new(3, 7);
    assert_eq!(p.x, 3);
    assert_eq!(p.y, 7);
}
