use interprocess::cmsg::context::{Collector, DummyCollector, FnCollector, IterCollector};
use std::cell::RefCell;

#[test]
fn dummy_collector_does_nothing() {
    let mut c = DummyCollector;
    c.pre_op_collect(3);
    c.post_op_collect(3, 0);
    assert_eq!(c, DummyCollector);
}

#[test]
fn boxed_collector_forwards() {
    let mut c = Box::new(DummyCollector);
    c.pre_op_collect(3);
    c.post_op_collect(3, 7);
}

#[test]
fn fn_collector_calls_both_hooks() {
    let log: RefCell<Vec<(i32, i32)>> = RefCell::new(Vec::new());
    let mut c = FnCollector::before_and_after(
        |fd| log.borrow_mut().push((fd, -1)),
        |fd, flags| log.borrow_mut().push((fd, flags)),
    );
    c.pre_op_collect(5);
    c.post_op_collect(5, 64);
    assert_eq!(*log.borrow(), vec![(5, -1), (5, 64)]);
}

#[test]
fn fn_collector_before_only() {
    let log: RefCell<Vec<i32>> = RefCell::new(Vec::new());
    let mut c = FnCollector::<_, fn(i32, i32)>::before(|fd| log.borrow_mut().push(fd));
    c.pre_op_collect(9);
    c.post_op_collect(9, 1);
    assert_eq!(*log.borrow(), vec![9]);
}

#[test]
fn fn_collector_after_only() {
    let log: RefCell<Vec<i32>> = RefCell::new(Vec::new());
    let mut c = FnCollector::<fn(i32), _>::after(|_fd, flags| log.borrow_mut().push(flags));
    c.pre_op_collect(9);
    c.post_op_collect(9, 17);
    assert_eq!(*log.borrow(), vec![17]);
}

#[test]
fn iter_collector_drives_every_collector_in_order() {
    let log: RefCell<Vec<i32>> = RefCell::new(Vec::new());
    let log_ref = &log;
    let make = move |tag: i32| {
        FnCollector::before_and_after(
            move |_fd| log_ref.borrow_mut().push(tag),
            move |_fd, _flags| log_ref.borrow_mut().push(100 + tag),
        )
    };
    let mut fan = IterCollector::new(vec![make(1), make(2), make(3)]);
    fan.pre_op_collect(4);
    fan.post_op_collect(4, 0);
    // both phases visit the sub-collectors in the same, first-to-last order
    assert_eq!(*log.borrow(), vec![1, 2, 3, 101, 102, 103]);
}
