//! A bounded queue that drops the oldest.

use rustconsole::session::media_queue::MediaQueue;
use rustconsole::time::Duration;

#[test]
fn capacity_and_close_are_bounded() {
    let mut queue = MediaQueue::new(2);
    assert_eq!(queue.push(1), None);
    queue.push(2);
    assert_eq!(queue.push(3), Some(1));
    queue.close();
    assert_eq!(queue.push(4), Some(4));
    assert_eq!(queue.pop_timeout(Duration::from_nanos(0)), Some(2));
    assert_eq!(queue.pop_timeout(Duration::from_nanos(0)), Some(3));
    assert_eq!(queue.pop_timeout(Duration::from_secs(10)), None);
}

#[test]
fn what_went_into_a_queue_is_what_left_it_and_what_is_there() {
    let mut queue = MediaQueue::new(2);
    let mut left = Vec::new();
    let mut taken = 0;
    for value in 0..6 {
        left.extend(queue.push(value));
        if value % 3 == 1 {
            let item = queue.pop_timeout(Duration::from_nanos(0));
            taken += usize::from(item.is_some());
            left.extend(item);
        }
    }
    queue.close();
    assert_eq!(queue.push(6), Some(6));
    assert_eq!(queue.dropped(), (left.len() - taken) as u64);
    left.extend(queue.take_all());
    assert_eq!(left, [0, 1, 2, 3, 4, 5]);
}
