use shufflebuf::ShuffleBuf;
use shufflebuf::SHUFFLE_THRESHOLD;

#[test]
fn new_queue_is_empty_and_all_vacant() {
    let q = ShuffleBuf::<16>::default();
    assert_eq!(q.available(), 0);
    assert_eq!(q.vacant(), 16);
}

#[test]
fn push_one_stores_until_the_end_is_reached() {
    let mut q = ShuffleBuf::<3>::default();
    assert_eq!(q.push_one(10), 1);
    assert_eq!(q.push_one(11), 1);
    assert_eq!(q.push_one(12), 1);
    assert_eq!(q.push_one(13), 0);
    assert_eq!(q.available(), 3);
    assert_eq!(q.vacant(), 0);
    assert_eq!(q.read_one(), (1, 10));
    assert_eq!(q.read_one(), (1, 11));
    assert_eq!(q.read_one(), (1, 12));
    assert_eq!(q.read_one(), (0, 0));
}

#[test]
fn push_many_is_cut_short_by_the_vacant_slots() {
    let mut q = ShuffleBuf::<8>::default();
    assert_eq!(q.push_many(&[1, 2, 3, 4, 5]), 5);
    assert_eq!(q.vacant(), 3);
    assert_eq!(q.push_many(&[6, 7, 8, 9, 10]), 3);
    assert_eq!(q.vacant(), 0);
    assert_eq!(q.push_many(&[11]), 0);
    let mut out = [0u8; 8];
    assert_eq!(q.read_many(&mut out), 8);
    assert_eq!(out, [1, 2, 3, 4, 5, 6, 7, 8]);
}

#[test]
fn read_many_is_cut_short_by_the_unread_bytes() {
    let mut q = ShuffleBuf::<8>::default();
    q.push_many(&[1, 2, 3]);
    let mut out = [9u8; 5];
    assert_eq!(q.read_many(&mut out), 3);
    assert_eq!(out, [1, 2, 3, 9, 9]);
    assert_eq!(q.available(), 0);
}

#[test]
fn read_many_leaves_the_rest_of_the_output_alone() {
    let mut q = ShuffleBuf::<8>::default();
    q.push_many(&[1, 2, 3, 4, 5, 6]);
    let mut out = [9u8; 2];
    assert_eq!(q.read_many(&mut out), 2);
    assert_eq!(out, [1, 2]);
    let mut rest = [9u8; 6];
    assert_eq!(q.read_many(&mut rest), 4);
    assert_eq!(rest, [3, 4, 5, 6, 9, 9]);
}

#[test]
fn empty_push_and_empty_read_move_nothing() {
    let mut q = ShuffleBuf::<8>::default();
    assert_eq!(q.push_many(&[]), 0);
    assert_eq!(q.available(), 0);
    assert_eq!(q.vacant(), 8);
    q.push_many(&[1, 2]);
    let mut none: [u8; 0] = [];
    assert_eq!(q.read_many(&mut none), 0);
    assert_eq!(q.available(), 2);
    assert_eq!(q.read_one(), (1, 1));
    assert_eq!(q.read_one(), (1, 2));
}

#[test]
fn vacancy_counts_only_the_end_until_the_window_slides() {
    let mut q = ShuffleBuf::<8>::default();
    assert_eq!(q.push_many(&[1, 2, 3, 4, 5, 6, 7, 8]), 8);
    assert_eq!(q.read_one(), (1, 1));
    assert_eq!(q.available(), 7);
    assert_eq!(q.vacant(), 0);
    assert_eq!(q.push_one(9), 0);
}

#[test]
fn single_reads_slide_the_window_past_the_threshold() {
    assert_eq!(SHUFFLE_THRESHOLD, 4);
    let mut q = ShuffleBuf::<8>::default();
    assert_eq!(q.push_many(&[1, 2, 3, 4, 5, 6, 7, 8]), 8);
    for i in 0..4u8 {
        assert_eq!(q.read_one(), (1, i + 1));
        assert_eq!(q.vacant(), 0);
    }
    assert_eq!(q.read_one(), (1, 5));
    assert_eq!(q.available(), 3);
    assert_eq!(q.vacant(), 5);
    assert_eq!(q.push_many(&[9, 10, 11, 12, 13, 14]), 5);
    let mut out = [0u8; 8];
    assert_eq!(q.read_many(&mut out), 8);
    assert_eq!(out, [6, 7, 8, 9, 10, 11, 12, 13]);
}

#[test]
fn block_read_slides_the_window_at_once() {
    let mut q = ShuffleBuf::<8>::default();
    q.push_many(&[1, 2, 3, 4, 5, 6, 7, 8]);
    let mut out = [0u8; 1];
    assert_eq!(q.read_many(&mut out), 1);
    assert_eq!(out, [1]);
    assert_eq!(q.available(), 7);
    assert_eq!(q.vacant(), 1);
    assert_eq!(q.push_one(9), 1);
    assert_eq!(q.vacant(), 0);
}

#[test]
fn zero_length_block_read_still_slides_the_window() {
    let mut q = ShuffleBuf::<8>::default();
    q.push_many(&[1, 2, 3, 4, 5, 6, 7, 8]);
    assert_eq!(q.read_one(), (1, 1));
    assert_eq!(q.vacant(), 0);
    let mut none: [u8; 0] = [];
    assert_eq!(q.read_many(&mut none), 0);
    assert_eq!(q.available(), 7);
    assert_eq!(q.vacant(), 1);
}

#[test]
fn reads_on_an_empty_queue_change_nothing() {
    let mut q = ShuffleBuf::<8>::default();
    q.push_many(&[1, 2]);
    assert_eq!(q.read_one(), (1, 1));
    assert_eq!(q.read_one(), (1, 2));
    let vacant = q.vacant();
    assert_eq!(vacant, 6);
    let mut out = [7u8; 4];
    for _ in 0..10 {
        assert_eq!(q.read_one(), (0, 0));
        assert_eq!(q.read_many(&mut out), 0);
        assert_eq!(out, [7, 7, 7, 7]);
        assert_eq!(q.available(), 0);
        assert_eq!(q.vacant(), vacant);
    }
}

#[test]
fn zero_capacity_queue_takes_and_gives_nothing() {
    let mut q = ShuffleBuf::<0>::default();
    assert_eq!(q.push_one(1), 0);
    assert_eq!(q.push_many(&[1, 2, 3]), 0);
    assert_eq!(q.read_one(), (0, 0));
    let mut out = [5u8; 3];
    assert_eq!(q.read_many(&mut out), 0);
    assert_eq!(out, [5, 5, 5]);
    assert_eq!(q.available(), 0);
    assert_eq!(q.vacant(), 0);
}

#[test]
fn freed_slots_take_bytes_again_after_a_block_read() {
    let src = [3u8; 256];
    let mut q = ShuffleBuf::<256>::default();
    assert_eq!(q.push_many(&src), 256);
    assert_eq!(q.push_many(&src), 0);
    assert_eq!(q.push_one(1), 0);
    let mut out = [0u8; 60];
    assert_eq!(q.read_many(&mut out), 60);
    assert_eq!(q.available(), 196);
    assert_eq!(q.vacant(), 60);
    assert_eq!(q.push_many(&[4u8; 60]), 60);
    assert_eq!(q.available(), 256);
    assert_eq!(q.vacant(), 0);
}

#[test]
fn oversized_push_is_cut_to_the_capacity() {
    let src = [1u8; 512];
    let mut q = ShuffleBuf::<256>::default();
    assert_eq!(q.push_many(&src), 256);
    assert_eq!(q.available(), 256);
    assert_eq!(q.vacant(), 0);
}

#[test]
fn bytes_come_out_in_the_order_they_went_in() {
    let digits: [u8; 10] = [0, 1, 2, 3, 4, 5, 6, 7, 8, 9];
    let mut q = ShuffleBuf::<256>::default();
    q.push_many(&digits);
    q.push_many(&digits);
    q.push_many(&digits);
    let mut first = [0u8; 15];
    assert_eq!(q.read_many(&mut first), 15);
    assert_eq!(first, [0, 1, 2, 3, 4, 5, 6, 7, 8, 9, 0, 1, 2, 3, 4]);
    assert_eq!(first[14], 4);
    assert_eq!(q.available(), 15);
    q.push_many(&digits);
    let mut second = [0u8; 40];
    assert_eq!(q.read_many(&mut second), 25);
    assert_eq!(second[24], 9);
    assert_eq!(second[..25], [5, 6, 7, 8, 9, 0, 1, 2, 3, 4, 5, 6, 7, 8, 9, 0, 1, 2, 3, 4, 5, 6, 7, 8, 9]);
}

#[test]
fn interleaved_pushes_and_reads_conserve_every_byte() {
    let mut q = ShuffleBuf::<7>::default();
    let mut taken: Vec<u8> = Vec::new();
    let mut given: Vec<u8> = Vec::new();
    let mut next: u8 = 0;
    for round in 0..200usize {
        let block: Vec<u8> = (0..(round % 5)).map(|k| next.wrapping_add(k as u8)).collect();
        let vacant = q.vacant();
        let n = q.push_many(&block);
        assert_eq!(n, block.len().min(vacant));
        taken.extend_from_slice(&block[..n]);
        next = next.wrapping_add(block.len() as u8);
        if round % 3 == 0 {
            let (c, b) = q.read_one();
            if c == 1 {
                given.push(b);
            }
        } else {
            let mut out = vec![0u8; round % 4];
            let before = q.available();
            let m = q.read_many(&mut out);
            assert_eq!(m, before.min(out.len()));
            given.extend_from_slice(&out[..m]);
        }
        assert!(q.available() + q.vacant() <= 7);
        assert_eq!(taken.len(), given.len() + q.available());
    }
    let mut rest = [0u8; 7];
    let m = q.read_many(&mut rest);
    given.extend_from_slice(&rest[..m]);
    assert_eq!(taken, given);
}
