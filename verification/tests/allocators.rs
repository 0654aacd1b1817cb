//! Allocator behaviour: the fixed-capacity buffer accepts exactly its
//! capacity and fails cleanly past it, and the pooled allocator reuses
//! released regions across many cycles instead of growing.

use musli::allocator::{Fixed, System};
use musli::buf::{Buf, BufString};
use musli::collect_string;

#[test]
fn fixed_capacity_boundary() {
    let mut alloc = Fixed::new(8);
    let mut buf = alloc.acquire().expect("a fresh extent has room");
    assert_eq!(buf.capacity(), 8);

    assert!(buf.try_write(&[1, 2, 3, 4, 5, 6, 7, 8]));
    assert_eq!(buf.len(), 8);

    assert!(!buf.try_write(&[9]));
    assert_eq!(buf.len(), 8);
    assert_eq!(buf.as_slice(), &[1, 2, 3, 4, 5, 6, 7, 8]);

    alloc.release(buf);
}

#[test]
fn fixed_subregions_are_disjoint() {
    let mut alloc = Fixed::new(10);
    let mut first = alloc.acquire().expect("room");
    assert!(first.try_write(&[1, 2, 3, 4]));
    assert!(alloc.acquire().is_none());
    alloc.release(first);

    let mut second = alloc.acquire().expect("the unwritten tail is free again");
    assert_eq!(second.capacity(), 6);
    assert!(second.try_write(&[5, 6, 7, 8, 9, 10]));
    assert!(!second.try_write(&[11]));
    alloc.release(second);

    assert!(alloc.acquire().is_none());
}

#[test]
fn pooled_reuse_over_many_cycles() {
    let mut alloc = System::new();
    let mut iterations = 0;
    while iterations < 10_000 {
        let mut buf = alloc.acquire().expect("pooled allocation always succeeds");
        assert!(buf.write(b"scratch bytes"));
        assert_eq!(buf.len(), 13);
        alloc.release(buf);
        iterations += 1;
    }
    assert_eq!(alloc.region_count(), 1);
    assert_eq!(alloc.peak_count(), 1);
}

#[test]
fn pooled_regions_track_peak() {
    let mut alloc = System::new();
    let a = alloc.acquire().expect("allocation a");
    let b = alloc.acquire().expect("allocation b");
    let c = alloc.acquire().expect("allocation c");
    alloc.release(a);
    alloc.release(b);
    alloc.release(c);
    let mut iterations = 0;
    while iterations < 100 {
        let one = alloc.acquire().expect("reuse");
        let two = alloc.acquire().expect("reuse");
        alloc.release(one);
        alloc.release(two);
        iterations += 1;
    }
    assert_eq!(alloc.region_count(), 3);
    assert_eq!(alloc.peak_count(), 3);
}

#[test]
fn pooled_regions_come_back_cleared() {
    let mut alloc = System::new();
    let mut buf = alloc.acquire().expect("allocation");
    assert!(buf.write(b"leftovers"));
    alloc.release(buf);
    let reused = alloc.acquire().expect("reuse");
    assert_eq!(reused.len(), 0);
    alloc.release(reused);
}

#[test]
fn buf_string_collects_text() {
    let mut alloc = System::new();
    let text = collect_string(&mut alloc, "number 42").expect("pooled writes succeed");
    assert_eq!(text.to_text(), "number 42");
    alloc.release(text.into_buf());
}

#[test]
fn buf_string_over_fixed_capacity() {
    let mut alloc = Fixed::new(6);
    let buf = alloc.acquire().expect("room");
    let mut text = BufString::new(buf);
    text.try_push_str("héllo").expect("six bytes fit");
    assert!(text.try_push('!').is_err());
    assert_eq!(text.to_text(), "héllo");
    text.try_push('!').expect_err("still no room");
    alloc.release(text.into_buf());
}
