use ustunet::dispatch::sendbuf::{SendingBuffer, NUM_BUFFS};

#[test]
fn starts_with_spare_buffers_only() {
    let mut b = SendingBuffer::new();
    assert_eq!(NUM_BUFFS, 4);
    assert!(b.first().is_none());
    assert!(b.pop_packet().is_none());
    for _ in 0..4 {
        assert_eq!(b.get_buf(), Some(vec![]));
    }
    assert!(b.get_buf().is_none());
    assert!(b.get_mut().is_none());
}

#[test]
fn packets_leave_in_the_order_in_which_they_came() {
    let mut b = SendingBuffer::new();
    b.queue_buf(vec![1]);
    b.queue_buf(vec![]);
    b.queue_buf(vec![2, 2]);
    b.queue_buf(vec![3]);
    assert_eq!(b.first(), Some(&[1u8][..]));
    assert_eq!(b.pop_packet(), Some(vec![1]));
    b.queue_buf(vec![4]);
    assert_eq!(b.pop_packet(), Some(vec![2, 2]));
    assert_eq!(b.pop_packet(), Some(vec![3]));
    assert_eq!(b.pop_packet(), Some(vec![4]));
    assert_eq!(b.pop_packet(), None);
}

#[test]
fn buffers_are_kept() {
    let mut b = SendingBuffer::new();
    let mut buf = b.get_buf().unwrap();
    buf.push(7);
    b.queue_buf(buf);
    let empty = b.get_buf().unwrap();
    b.queue_buf(empty);
    b.pop_front();
    assert!(b.first().is_none());
    // The buffer of the packet is the next one in use, emptied.
    for _ in 0..4 {
        assert_eq!(b.get_buf(), Some(vec![]));
    }
    assert!(b.get_buf().is_none());
}

#[test]
fn a_lent_buffer_gets_in_line_once_it_is_filled() {
    let mut b = SendingBuffer::new();
    b.get_mut().unwrap().extend_from_slice(&[8, 9]);
    b.queue_written();
    assert_eq!(b.first(), Some(&[8u8, 9][..]));
    assert!(b.get_mut().unwrap().is_empty());
    b.queue_written();
    assert_eq!(b.pop_packet(), Some(vec![8, 9]));
    assert_eq!(b.pop_packet(), None);
    for _ in 0..3 {
        assert!(b.get_buf().is_some());
    }
    assert!(b.get_buf().is_none());
}
