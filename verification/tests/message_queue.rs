use std::cell::RefCell;

use escale_core::mq::{MessageProcessingStatus, MessageQueue};

#[test]
fn new_mq_is_empty() {
    let mut mq = MessageQueue::<i32, 8>::default();
    mq.process(|_: &i32| -> (MessageProcessingStatus, Vec<i32>) {
        panic!("the queue must be empty")
    });
}

#[test]
fn a_message_can_be_pushed_ignored_processed() {
    let mut mq = MessageQueue::<i32, 8>::default();
    mq.push(1);
    mq.process(|m: &i32| {
        assert_eq!(*m, 1);
        (MessageProcessingStatus::Ignored, Vec::new())
    });
    mq.process(|m: &i32| {
        assert_eq!(*m, 1);
        (MessageProcessingStatus::Processed, Vec::new())
    });
    mq.process(|_: &i32| -> (MessageProcessingStatus, Vec<i32>) {
        panic!("the queue must be empty")
    });
}

#[test]
fn a_message_can_be_pushed_when_processing() {
    let mut mq = MessageQueue::<i32, 8>::default();
    mq.push(1);
    mq.process(|m: &i32| {
        assert_eq!(*m, 1);
        (MessageProcessingStatus::Processed, vec![2])
    });
    mq.process(|m: &i32| {
        assert_eq!(*m, 2);
        (MessageProcessingStatus::Processed, Vec::new())
    });
    mq.process(|_: &i32| -> (MessageProcessingStatus, Vec<i32>) {
        panic!("the queue must be empty")
    });
}

#[test]
fn followup_is_not_visited_in_its_own_pass() {
    let mut mq = MessageQueue::<i32, 8>::default();
    mq.push(1);
    // within this pass only message 1 may be offered; the follow-up 2 must
    // wait for the next pass, where it is seen exactly once
    mq.process(|m: &i32| {
        assert_eq!(*m, 1);
        (MessageProcessingStatus::Processed, vec![2])
    });
    let seen = RefCell::new(0);
    mq.process(|m: &i32| {
        assert_eq!(*m, 2);
        *seen.borrow_mut() += 1;
        (MessageProcessingStatus::Processed, Vec::new())
    });
    assert_eq!(*seen.borrow(), 1);
    mq.process(|_: &i32| -> (MessageProcessingStatus, Vec<i32>) {
        panic!("the queue must be empty")
    });
}

#[test]
fn saturated_bus_drops_the_oldest() {
    let mut mq = MessageQueue::<i32, 2>::default();
    mq.push(1);
    mq.push(2);
    mq.push(3);
    let seen = RefCell::new(Vec::new());
    mq.process(|m: &i32| {
        seen.borrow_mut().push(*m);
        (MessageProcessingStatus::Processed, Vec::new())
    });
    assert_eq!(*seen.borrow(), vec![2, 3]);
}

#[test]
fn ignored_messages_keep_their_order() {
    let mut mq = MessageQueue::<i32, 4>::default();
    mq.push(1);
    mq.push(2);
    mq.push(3);
    mq.process(|m: &i32| {
        if *m == 2 {
            (MessageProcessingStatus::Processed, Vec::new())
        } else {
            (MessageProcessingStatus::Ignored, Vec::new())
        }
    });
    let seen = RefCell::new(Vec::new());
    mq.process(|m: &i32| {
        seen.borrow_mut().push(*m);
        (MessageProcessingStatus::Ignored, Vec::new())
    });
    assert_eq!(*seen.borrow(), vec![1, 3]);
}
