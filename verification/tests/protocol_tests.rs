use sharded_vec_writer::InitError;
use sharded_vec_writer::InsufficientCapacity;
use sharded_vec_writer::VecWriter;
use std::rc::Rc;

#[test]
fn requests_are_granted_while_they_fit() {
    let mut v: Vec<u32> = Vec::with_capacity(10);
    let mut writer = VecWriter::new(&mut v);
    assert_eq!(writer.remaining_capacity(), 10);
    let a = writer.try_take_shard(4).unwrap();
    let b = writer.try_take_shard(4).unwrap();
    assert_eq!(writer.remaining_capacity(), 2);
    assert!(writer.try_take_shard(3).is_none());
    assert_eq!(writer.remaining_capacity(), 2);
    let c = writer.try_take_shard(2).unwrap();
    assert_eq!(writer.remaining_capacity(), 0);
    assert!(writer.try_take_shard(1).is_none());
    assert_eq!(a.output_offset(), 0);
    assert_eq!(b.output_offset(), 4);
    assert_eq!(c.output_offset(), 8);
}

#[test]
fn empty_shard_is_always_granted_and_full() {
    let mut v: Vec<u32> = Vec::with_capacity(0);
    let mut writer = VecWriter::new(&mut v);
    let mut shard = writer.try_take_shard(0).unwrap();
    assert_eq!(shard.try_push(1).unwrap_err(), InsufficientCapacity);
    assert!(writer.try_return_shard(shard).is_ok());
    assert_eq!(v.len(), 0);
}

#[test]
fn request_larger_than_any_buffer_is_refused() {
    let mut v: Vec<u32> = Vec::with_capacity(4);
    let mut writer = VecWriter::new(&mut v);
    let _first = writer.take_shard(3);
    assert!(writer.try_take_shard(usize::MAX).is_none());
    assert_eq!(writer.remaining_capacity(), 1);
}

#[test]
fn writer_resumes_after_existing_values() {
    let mut v: Vec<u32> = Vec::with_capacity(10);
    v.push(100);
    v.push(101);
    v.push(102);
    let mut writer = VecWriter::new(&mut v);
    assert_eq!(writer.remaining_capacity(), 7);
    assert!(writer.try_take_shard(8).is_none());
    let mut shard = writer.take_shard(7);
    assert_eq!(shard.output_offset(), 3);
    for i in 0..7 {
        shard.push(i);
    }
    writer.return_shard(shard);
    assert_eq!(v, vec![100, 101, 102, 0, 1, 2, 3, 4, 5, 6]);
    assert_eq!(v.capacity(), 10);
}

#[test]
fn output_offset_follows_pushes() {
    let mut v: Vec<u32> = Vec::with_capacity(6);
    let mut writer = VecWriter::new(&mut v);
    let _first = writer.take_shard(2);
    let mut shard = writer.take_shard(3);
    assert_eq!(shard.output_offset(), 2);
    shard.push(7);
    assert_eq!(shard.output_offset(), 3);
    shard.push(8);
    shard.push(9);
    assert_eq!(shard.output_offset(), 5);
    assert_eq!(shard.try_push(10).unwrap_err(), InsufficientCapacity);
    assert_eq!(shard.output_offset(), 5);
}

#[test]
fn pushed_values_land_at_their_offsets() {
    let mut v: Vec<u32> = Vec::with_capacity(6);
    let mut writer = VecWriter::new(&mut v);
    let mut a = writer.take_shard(2);
    let mut b = writer.take_shard(4);
    let mut expected = vec![0u32; 6];
    while b.try_push(0).is_ok() {}
    let b_rejected = writer.try_return_shard(b).unwrap_err();
    assert_eq!(b_rejected.reason, InitError::OutOfOrder);
    let at = a.output_offset();
    a.push(41);
    expected[at] = 41;
    let at = a.output_offset();
    a.push(42);
    expected[at] = 42;
    writer.return_shard(a);
    writer.return_shard(b_rejected.shard);
    assert_eq!(v, expected);
}

#[test]
fn rejected_incomplete_shard_can_be_finished() {
    let mut v: Vec<u32> = Vec::with_capacity(10);
    let mut writer = VecWriter::new(&mut v);
    let mut shard = writer.take_shard(4);
    shard.push(0);
    shard.push(1);
    let rejected = writer.try_return_shard(shard).unwrap_err();
    assert_eq!(rejected.reason, InitError::UninitElements);
    let mut shard = rejected.shard;
    assert_eq!(shard.output_offset(), 2);
    shard.push(2);
    shard.push(3);
    assert!(writer.try_return_shard(shard).is_ok());
    assert_eq!(v, vec![0, 1, 2, 3]);
}

#[test]
fn out_of_order_shard_is_kept_for_later() {
    let mut v: Vec<u32> = Vec::with_capacity(10);
    let mut writer = VecWriter::new(&mut v);
    let mut shard1 = writer.take_shard(4);
    let mut shard2 = writer.take_shard(4);
    for i in 0..4 {
        shard1.push(i);
    }
    for i in 4..8 {
        shard2.push(i);
    }
    let rejected = writer.try_return_shard(shard2).unwrap_err();
    assert_eq!(rejected.reason, InitError::OutOfOrder);
    writer.return_shard(shard1);
    writer.return_shard(rejected.shard);
    assert_eq!(v, vec![0, 1, 2, 3, 4, 5, 6, 7]);
}

#[test]
fn first_failing_test_decides() {
    let mut v1: Vec<u32> = Vec::with_capacity(10);
    let mut writer1 = VecWriter::new(&mut v1);
    let _own = writer1.take_shard(2);
    let mut v2: Vec<u32> = Vec::with_capacity(10);
    let mut writer2 = VecWriter::new(&mut v2);
    let _skipped = writer2.take_shard(2);
    let mut foreign = writer2.take_shard(2);
    foreign.push(1);
    // Incomplete and out of order as well, yet it is another writer's.
    assert_eq!(
        writer1.try_return_shard(foreign).unwrap_err().reason,
        InitError::WrongVec
    );
    let mut later = writer1.take_shard(2);
    later.push(1);
    // Out of order as well, yet it is incomplete first.
    assert_eq!(
        writer1.try_return_shard(later).unwrap_err().reason,
        InitError::UninitElements
    );
}

#[test]
fn refused_shard_leaves_buffer_unchanged() {
    let mut v: Vec<u32> = Vec::with_capacity(10);
    v.push(9);
    {
        let mut writer = VecWriter::new(&mut v);
        let mut shard = writer.take_shard(4);
        shard.push(1);
        assert!(writer.try_return_shard(shard).is_err());
        assert_eq!(writer.remaining_capacity(), 5);
    }
    assert_eq!(v, vec![9]);
    assert_eq!(v.capacity(), 10);
}

#[test]
fn abandoned_shard_drops_its_values_and_keeps_buffer() {
    let mut v: Vec<Rc<()>> = Vec::with_capacity(4);
    let r = Rc::new(());
    {
        let mut writer = VecWriter::new(&mut v);
        let mut shard = writer.take_shard(3);
        shard.push(Rc::clone(&r));
        shard.push(Rc::clone(&r));
        assert_eq!(Rc::strong_count(&r), 3);
        drop(shard);
        assert_eq!(Rc::strong_count(&r), 1);
        // The range of the abandoned shard stays handed out.
        assert_eq!(writer.remaining_capacity(), 1);
        let mut next = writer.take_shard(1);
        assert_eq!(next.output_offset(), 3);
        next.push(Rc::clone(&r));
        assert_eq!(
            writer.try_return_shard(next).unwrap_err().reason,
            InitError::OutOfOrder
        );
    }
    assert_eq!(Rc::strong_count(&r), 1);
    assert_eq!(v.len(), 0);
    assert_eq!(v.capacity(), 4);
}

#[test]
fn committed_values_are_not_dropped() {
    let mut v: Vec<Rc<()>> = Vec::with_capacity(2);
    let r = Rc::new(());
    let mut writer = VecWriter::new(&mut v);
    let mut shard = writer.take_shard(2);
    shard.push(Rc::clone(&r));
    shard.push(Rc::clone(&r));
    writer.return_shard(shard);
    assert_eq!(Rc::strong_count(&r), 3);
    assert_eq!(v.len(), 2);
    drop(v);
    assert_eq!(Rc::strong_count(&r), 1);
}

#[test]
fn shard_of_a_twin_buffer_is_refused() {
    // Vectors of a zero-sized type all lie at one address.
    let mut v1: Vec<()> = Vec::new();
    let mut writer1 = VecWriter::new(&mut v1);
    let mut v2: Vec<()> = Vec::new();
    let mut writer2 = VecWriter::new(&mut v2);
    let mut foreign = writer2.take_shard(3);
    for _ in 0..3 {
        foreign.push(());
    }
    assert_eq!(
        writer1.try_return_shard(foreign).unwrap_err().reason,
        InitError::WrongVec
    );
    let mut own = writer1.take_shard(3);
    for _ in 0..3 {
        own.push(());
    }
    writer1.return_shard(own);
    assert_eq!(v1.len(), 3);
    assert_eq!(v2.len(), 0);
}

#[test]
fn shards_can_be_filled_in_any_order() {
    let mut v: Vec<String> = Vec::with_capacity(5);
    let mut writer = VecWriter::new(&mut v);
    let mut a = writer.take_shard(2);
    let mut b = writer.take_shard(1);
    let mut c = writer.take_shard(2);
    c.push("d".to_string());
    b.push("c".to_string());
    a.push("a".to_string());
    c.push("e".to_string());
    a.push("b".to_string());
    writer.return_shard(a);
    writer.return_shard(b);
    writer.return_shard(c);
    assert_eq!(v, vec!["a", "b", "c", "d", "e"]);
}

#[test]
fn errors_describe_themselves() {
    assert_eq!(InsufficientCapacity.to_string(), "Insufficient capacity");
    assert_eq!(
        InitError::UninitElements.to_string(),
        "Elements not initialised"
    );
    assert_eq!(InitError::WrongVec.to_string(), "Shard returned to wrong vec");
    assert_eq!(
        InitError::OutOfOrder.to_string(),
        "Shards returned out-of-order"
    );
}
