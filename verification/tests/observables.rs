//! Observable signals.

use portable_atomic::{AtomicBool, AtomicU32, AtomicU64, Ordering};
use supervisor_tools::observe::{Counted, Observable, Sink, Source};

#[test]
fn counted_counts_w_and_r_but_not_inner() {
    let c = Counted::new(5u8);
    assert_eq!((c.writes(), c.reads()), (0, 0));
    c.w();
    c.w();
    c.r();
    c.inner();
    assert_eq!((c.writes(), c.reads()), (2, 1));
}

#[test]
fn counted_token_is_the_write_counter() {
    let c = Counted::new(());
    assert_eq!(c.change_token(), 0);
    c.r();
    assert_eq!(c.change_token(), 0);
    c.w();
    assert_eq!(c.change_token(), 1);
}

#[test]
fn counted_hands_back_the_inner_signal() {
    let c = Counted::new(AtomicU32::new(0));
    c.w().store(7, Ordering::Relaxed);
    assert_eq!(c.inner().load(Ordering::Relaxed), 7);
}

#[test]
fn sink_and_source_move_values_through_atomics() {
    let a = AtomicU32::new(0);
    Sink::put(&a, 7);
    assert_eq!(Source::get(&a), 7);
    let b = core::sync::atomic::AtomicI32::new(-1);
    Sink::put(&b, 5);
    assert_eq!(Source::get(&b), 5);
}

#[test]
fn counted_forwards_and_counts_values() {
    let c = Counted::new(AtomicU32::new(0));
    c.put(3);
    assert_eq!(c.get(), 3);
    assert_eq!((c.writes(), c.reads()), (1, 1));
    assert_eq!(c.change_token(), 1, "the count is the token, not the value");
}

#[test]
fn atomics_use_the_value_as_token() {
    let a = AtomicU32::new(0);
    assert_eq!(a.change_token(), 0);
    a.store(3, Ordering::Relaxed);
    assert_eq!(a.change_token(), 3);
    a.store(3, Ordering::Relaxed);
    assert_eq!(a.change_token(), 3);

    let wide = AtomicU64::new(u64::MAX);
    assert_eq!(wide.change_token(), u32::MAX);

    let b = AtomicBool::new(false);
    b.store(true, Ordering::Relaxed);
    assert_eq!(b.change_token(), 1);
}

#[test]
fn every_portable_atomic_gives_back_what_was_put() {
    let a = portable_atomic::AtomicU8::new(0);
    Sink::put(&a, 200);
    assert_eq!((Source::get(&a), a.change_token()), (200, 200));
    let a = portable_atomic::AtomicU16::new(0);
    Sink::put(&a, 40000);
    assert_eq!((Source::get(&a), a.change_token()), (40000, 40_000));
    let a = portable_atomic::AtomicU32::new(0);
    Sink::put(&a, 7);
    assert_eq!((Source::get(&a), a.change_token()), (7, 7));
    let a = portable_atomic::AtomicU64::new(0);
    Sink::put(&a, (1 << 32) + 5);
    assert_eq!((Source::get(&a), a.change_token()), ((1 << 32) + 5, 5));
    let a = portable_atomic::AtomicUsize::new(0);
    Sink::put(&a, 9);
    assert_eq!((Source::get(&a), a.change_token()), (9, 9));
    let a = portable_atomic::AtomicI8::new(0);
    Sink::put(&a, -1);
    assert_eq!((Source::get(&a), a.change_token()), (-1, u32::MAX));
    let a = portable_atomic::AtomicI16::new(0);
    Sink::put(&a, -2);
    assert_eq!((Source::get(&a), a.change_token()), (-2, u32::MAX - 1));
    let a = portable_atomic::AtomicI32::new(0);
    Sink::put(&a, i32::MIN);
    assert_eq!((Source::get(&a), a.change_token()), (i32::MIN, 1 << 31));
    let a = portable_atomic::AtomicI64::new(0);
    Sink::put(&a, (1 << 40) - 1);
    assert_eq!((Source::get(&a), a.change_token()), ((1 << 40) - 1, u32::MAX));
    let a = portable_atomic::AtomicIsize::new(0);
    Sink::put(&a, -3);
    assert_eq!((Source::get(&a), a.change_token()), (-3, u32::MAX - 2));
    let a = portable_atomic::AtomicBool::new(false);
    Sink::put(&a, true);
    assert_eq!((Source::get(&a), a.change_token()), (true, 1));
}

#[test]
fn every_core_atomic_gives_back_what_was_put() {
    let a = core::sync::atomic::AtomicU8::new(0);
    Sink::put(&a, 200);
    assert_eq!((Source::get(&a), a.change_token()), (200, 200));
    let a = core::sync::atomic::AtomicU16::new(0);
    Sink::put(&a, 40000);
    assert_eq!((Source::get(&a), a.change_token()), (40000, 40_000));
    let a = core::sync::atomic::AtomicU32::new(0);
    Sink::put(&a, 7);
    assert_eq!((Source::get(&a), a.change_token()), (7, 7));
    let a = core::sync::atomic::AtomicU64::new(0);
    Sink::put(&a, (1 << 32) + 5);
    assert_eq!((Source::get(&a), a.change_token()), ((1 << 32) + 5, 5));
    let a = core::sync::atomic::AtomicUsize::new(0);
    Sink::put(&a, 9);
    assert_eq!((Source::get(&a), a.change_token()), (9, 9));
    let a = core::sync::atomic::AtomicI8::new(0);
    Sink::put(&a, -1);
    assert_eq!((Source::get(&a), a.change_token()), (-1, u32::MAX));
    let a = core::sync::atomic::AtomicI16::new(0);
    Sink::put(&a, -2);
    assert_eq!((Source::get(&a), a.change_token()), (-2, u32::MAX - 1));
    let a = core::sync::atomic::AtomicI32::new(0);
    Sink::put(&a, i32::MIN);
    assert_eq!((Source::get(&a), a.change_token()), (i32::MIN, 1 << 31));
    let a = core::sync::atomic::AtomicI64::new(0);
    Sink::put(&a, (1 << 40) - 1);
    assert_eq!((Source::get(&a), a.change_token()), ((1 << 40) - 1, u32::MAX));
    let a = core::sync::atomic::AtomicIsize::new(0);
    Sink::put(&a, -3);
    assert_eq!((Source::get(&a), a.change_token()), (-3, u32::MAX - 2));
    let a = core::sync::atomic::AtomicBool::new(false);
    Sink::put(&a, true);
    assert_eq!((Source::get(&a), a.change_token()), (true, 1));
}

#[test]
fn a_write_advances_the_token_and_a_read_does_not() {
    let c = Counted::new(AtomicBool::new(false));
    for n in 0..3u32 {
        assert_eq!((c.change_token(), c.writes(), c.reads()), (n, n, n));
        c.put(true);
        assert_eq!((c.change_token(), c.writes(), c.reads()), (n + 1, n + 1, n));
        assert!(c.get());
    }
    c.inner().store(false, Ordering::Relaxed);
    assert_eq!((c.change_token(), c.reads()), (3, 3));
}
