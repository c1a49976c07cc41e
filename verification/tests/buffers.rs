use tun_easytier::buffers::{gather, put, putv, size};

#[test]
fn put_copies_what_fits() {
    let mut buf = [0u8; 3];
    assert_eq!(put(&[1, 2, 3, 4, 5], &mut buf), 3);
    assert_eq!(buf, [1, 2, 3]);
    let mut buf = [9u8; 4];
    assert_eq!(put(&[1, 2], &mut buf), 2);
    assert_eq!(buf, [1, 2, 9, 9]);
    let mut buf = [9u8; 2];
    assert_eq!(put(&[], &mut buf), 0);
    assert_eq!(buf, [9, 9]);
}

#[test]
fn putv_fills_buffers_in_order() {
    let mut bufs = vec![vec![0u8; 2], vec![], vec![0u8; 2], vec![7u8; 3]];
    assert_eq!(putv(&[1, 2, 3, 4, 5], &mut bufs), 5);
    assert_eq!(bufs, vec![vec![1, 2], vec![], vec![3, 4], vec![5, 7, 7]]);
}

#[test]
fn putv_stops_when_buffers_are_full() {
    let mut bufs = vec![vec![0u8; 1], vec![0u8; 2]];
    assert_eq!(putv(&[1, 2, 3, 4, 5], &mut bufs), 3);
    assert_eq!(bufs, vec![vec![1], vec![2, 3]]);
    let mut none: Vec<Vec<u8>> = vec![];
    assert_eq!(putv(&[1, 2], &mut none), 0);
}

#[test]
fn size_sums_lengths() {
    assert_eq!(size(&[]), 0);
    assert_eq!(size(&[vec![1, 2], vec![], vec![3, 4, 5]]), 5);
}

#[test]
fn gather_concatenates() {
    let bufs = vec![vec![1, 2], vec![], vec![3], vec![4, 5, 6]];
    let mut dst = vec![0u8; 6];
    gather(&bufs, &mut dst);
    assert_eq!(dst, vec![1, 2, 3, 4, 5, 6]);
}

#[test]
fn gather_then_putv_gives_back_the_buffers() {
    let bufs = vec![vec![9, 8], vec![], vec![7, 6, 5]];
    let mut packet = vec![0u8; size(&bufs)];
    gather(&bufs, &mut packet);
    let mut into = vec![vec![0u8; 2], vec![], vec![0u8; 3]];
    assert_eq!(putv(&packet, &mut into), 5);
    assert_eq!(into, bufs);
}
