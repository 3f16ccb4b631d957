//! Observing signals: the traits that a signal implements, and a wrapper that counts accesses.

use vstd::prelude::*;

verus! {

/// A type whose writes can be observed without interpreting the value.
///
/// Two unequal tokens prove that the signal was written between the two readings. A token may wrap,
/// and its numeric value means nothing. For a heartbeat the token has to count: each write must
/// advance it.
pub trait Observable {
    /// A token that changes when the signal is written.
    fn change_token(&self) -> u32;
}

/// A signal that can be written.
pub trait Sink {
    /// The type of the values written.
    type Item;

    /// Writes `v` into the signal.
    fn put(&self, v: Self::Item);
}

/// A signal that can be read.
pub trait Source {
    /// The type of the values read.
    type Item;

    /// A snapshot of the signal's current value.
    fn get(&self) -> Self::Item;
}

/// The token of a value: its low 32 bits.
pub fn u8_token(v: u8) -> (r: u32)
    ensures
        r == v as u32,
{
    #[verifier::truncate]
    (v as u32)
}

/// The token of a value: its low 32 bits.
pub fn u16_token(v: u16) -> (r: u32)
    ensures
        r == v as u32,
{
    #[verifier::truncate]
    (v as u32)
}

/// The token of a value: its low 32 bits.
pub fn u32_token(v: u32) -> (r: u32)
    ensures
        r == v as u32,
{
    #[verifier::truncate]
    (v as u32)
}

/// The token of a value: its low 32 bits.
pub fn u64_token(v: u64) -> (r: u32)
    ensures
        r == v as u32,
{
    #[verifier::truncate]
    (v as u32)
}

/// The token of a value: its low 32 bits.
pub fn usize_token(v: usize) -> (r: u32)
    ensures
        r == v as u32,
{
    #[verifier::truncate]
    (v as u32)
}

/// The token of a value: its low 32 bits.
pub fn i8_token(v: i8) -> (r: u32)
    ensures
        r == v as u32,
        r == if v >= 0 {
            v as int
        } else {
            v + 0x1_0000_0000
        },
{
    assert(v >= 0 ==> v as u32 == v) by (bit_vector);
    assert(v < 0 ==> v as u32 == v + 0x1_0000_0000) by (bit_vector);
    #[verifier::truncate]
    (v as u32)
}

/// The token of a value: its low 32 bits.
pub fn i16_token(v: i16) -> (r: u32)
    ensures
        r == v as u32,
        r == if v >= 0 {
            v as int
        } else {
            v + 0x1_0000_0000
        },
{
    assert(v >= 0 ==> v as u32 == v) by (bit_vector);
    assert(v < 0 ==> v as u32 == v + 0x1_0000_0000) by (bit_vector);
    #[verifier::truncate]
    (v as u32)
}

/// The token of a value: its low 32 bits.
pub fn i32_token(v: i32) -> (r: u32)
    ensures
        r == v as u32,
        r == if v >= 0 {
            v as int
        } else {
            v + 0x1_0000_0000
        },
{
    assert(v >= 0 ==> v as u32 == v) by (bit_vector);
    assert(v < 0 ==> v as u32 == v + 0x1_0000_0000) by (bit_vector);
    #[verifier::truncate]
    (v as u32)
}

/// The token of a value: its low 32 bits.
pub fn i64_token(v: i64) -> (r: u32)
    ensures
        r == v as u32,
{
    #[verifier::truncate]
    (v as u32)
}

/// The token of a value: its low 32 bits.
pub fn isize_token(v: isize) -> (r: u32)
    ensures
        r == v as u32,
{
    #[verifier::truncate]
    (v as u32)
}

/// The token of a flag: one where it is set.
pub fn bool_token(v: bool) -> (r: u32)
    ensures
        r == if v {
            1u32
        } else {
            0u32
        },
{
    if v {
        1
    } else {
        0
    }
}

/// The type `portable_atomic::AtomicU8`, opaque here.
#[verifier::external_type_specification]
#[verifier::external_body]
pub struct ExPortableU8(portable_atomic::AtomicU8);

/// `portable_atomic::AtomicU8::load`, relaxed. What is read depends on other writers.
#[verifier::external_body]
fn load_u8(a: &portable_atomic::AtomicU8) -> u8 {
    a.load(portable_atomic::Ordering::Relaxed)
}

/// `portable_atomic::AtomicU8::store`, relaxed.
#[verifier::external_body]
fn store_u8(a: &portable_atomic::AtomicU8, v: u8) {
    a.store(v, portable_atomic::Ordering::Relaxed)
}

/// A relaxed load of `a` gave `v`.
pub closed spec fn u8_read(a: portable_atomic::AtomicU8, v: u8) -> bool {
    call_ensures(load_u8, (&a,), v)
}

/// A relaxed store of `v` in `a` was made.
pub closed spec fn u8_stored(a: portable_atomic::AtomicU8, v: u8) -> bool {
    call_ensures(store_u8, (&a, v), ())
}

/// A relaxed load of `a` gave `v`.
pub open spec fn core_u8_read(a: core::sync::atomic::AtomicU8, v: u8) -> bool {
    call_ensures(
        core::sync::atomic::AtomicU8::load,
        (&a, core::sync::atomic::Ordering::Relaxed),
        v,
    )
}

/// A relaxed store of `v` in `a` was made.
pub open spec fn core_u8_stored(a: core::sync::atomic::AtomicU8, v: u8) -> bool {
    call_ensures(
        core::sync::atomic::AtomicU8::store,
        (&a, v, core::sync::atomic::Ordering::Relaxed),
        (),
    )
}

impl Observable for portable_atomic::AtomicU8 {
    fn change_token(&self) -> (r: u32)
        ensures
            exists|v: u8| #[trigger] u8_read(*self, v) && r == v as u32,
            r <= 255,
    {
        let v: u8 = self.get();
        u8_token(v)
    }
}

impl Sink for portable_atomic::AtomicU8 {
    type Item = u8;

    fn put(&self, v: u8)
        ensures
            u8_stored(*self, v),
    {
        store_u8(self, v)
    }
}

impl Source for portable_atomic::AtomicU8 {
    type Item = u8;

    fn get(&self) -> (r: u8)
        ensures
            u8_read(*self, r),
    {
        load_u8(self)
    }
}

impl Observable for core::sync::atomic::AtomicU8 {
    fn change_token(&self) -> (r: u32)
        ensures
            exists|v: u8| #[trigger] core_u8_read(*self, v) && r == v as u32,
            r <= 255,
    {
        let v: u8 = self.get();
        u8_token(v)
    }
}

impl Sink for core::sync::atomic::AtomicU8 {
    type Item = u8;

    fn put(&self, v: u8)
        ensures
            core_u8_stored(*self, v),
    {
        self.store(v, core::sync::atomic::Ordering::Relaxed)
    }
}

impl Source for core::sync::atomic::AtomicU8 {
    type Item = u8;

    fn get(&self) -> (r: u8)
        ensures
            core_u8_read(*self, r),
    {
        self.load(core::sync::atomic::Ordering::Relaxed)
    }
}

/// The type `portable_atomic::AtomicU16`, opaque here.
#[verifier::external_type_specification]
#[verifier::external_body]
pub struct ExPortableU16(portable_atomic::AtomicU16);

/// `portable_atomic::AtomicU16::load`, relaxed. What is read depends on other writers.
#[verifier::external_body]
fn load_u16(a: &portable_atomic::AtomicU16) -> u16 {
    a.load(portable_atomic::Ordering::Relaxed)
}

/// `portable_atomic::AtomicU16::store`, relaxed.
#[verifier::external_body]
fn store_u16(a: &portable_atomic::AtomicU16, v: u16) {
    a.store(v, portable_atomic::Ordering::Relaxed)
}

/// A relaxed load of `a` gave `v`.
pub closed spec fn u16_read(a: portable_atomic::AtomicU16, v: u16) -> bool {
    call_ensures(load_u16, (&a,), v)
}

/// A relaxed store of `v` in `a` was made.
pub closed spec fn u16_stored(a: portable_atomic::AtomicU16, v: u16) -> bool {
    call_ensures(store_u16, (&a, v), ())
}

/// A relaxed load of `a` gave `v`.
pub open spec fn core_u16_read(a: core::sync::atomic::AtomicU16, v: u16) -> bool {
    call_ensures(
        core::sync::atomic::AtomicU16::load,
        (&a, core::sync::atomic::Ordering::Relaxed),
        v,
    )
}

/// A relaxed store of `v` in `a` was made.
pub open spec fn core_u16_stored(a: core::sync::atomic::AtomicU16, v: u16) -> bool {
    call_ensures(
        core::sync::atomic::AtomicU16::store,
        (&a, v, core::sync::atomic::Ordering::Relaxed),
        (),
    )
}

impl Observable for portable_atomic::AtomicU16 {
    fn change_token(&self) -> (r: u32)
        ensures
            exists|v: u16| #[trigger] u16_read(*self, v) && r == v as u32,
            r <= 65535,
    {
        let v: u16 = self.get();
        u16_token(v)
    }
}

impl Sink for portable_atomic::AtomicU16 {
    type Item = u16;

    fn put(&self, v: u16)
        ensures
            u16_stored(*self, v),
    {
        store_u16(self, v)
    }
}

impl Source for portable_atomic::AtomicU16 {
    type Item = u16;

    fn get(&self) -> (r: u16)
        ensures
            u16_read(*self, r),
    {
        load_u16(self)
    }
}

impl Observable for core::sync::atomic::AtomicU16 {
    fn change_token(&self) -> (r: u32)
        ensures
            exists|v: u16| #[trigger] core_u16_read(*self, v) && r == v as u32,
            r <= 65535,
    {
        let v: u16 = self.get();
        u16_token(v)
    }
}

impl Sink for core::sync::atomic::AtomicU16 {
    type Item = u16;

    fn put(&self, v: u16)
        ensures
            core_u16_stored(*self, v),
    {
        self.store(v, core::sync::atomic::Ordering::Relaxed)
    }
}

impl Source for core::sync::atomic::AtomicU16 {
    type Item = u16;

    fn get(&self) -> (r: u16)
        ensures
            core_u16_read(*self, r),
    {
        self.load(core::sync::atomic::Ordering::Relaxed)
    }
}

/// The type `portable_atomic::AtomicU32`, opaque here.
#[verifier::external_type_specification]
#[verifier::external_body]
pub struct ExPortableU32(portable_atomic::AtomicU32);

/// `portable_atomic::AtomicU32::load`, relaxed. What is read depends on other writers.
#[verifier::external_body]
fn load_u32(a: &portable_atomic::AtomicU32) -> u32 {
    a.load(portable_atomic::Ordering::Relaxed)
}

/// `portable_atomic::AtomicU32::store`, relaxed.
#[verifier::external_body]
fn store_u32(a: &portable_atomic::AtomicU32, v: u32) {
    a.store(v, portable_atomic::Ordering::Relaxed)
}

/// A relaxed load of `a` gave `v`.
pub closed spec fn u32_read(a: portable_atomic::AtomicU32, v: u32) -> bool {
    call_ensures(load_u32, (&a,), v)
}

/// A relaxed store of `v` in `a` was made.
pub closed spec fn u32_stored(a: portable_atomic::AtomicU32, v: u32) -> bool {
    call_ensures(store_u32, (&a, v), ())
}

/// A relaxed load of `a` gave `v`.
pub open spec fn core_u32_read(a: core::sync::atomic::AtomicU32, v: u32) -> bool {
    call_ensures(
        core::sync::atomic::AtomicU32::load,
        (&a, core::sync::atomic::Ordering::Relaxed),
        v,
    )
}

/// A relaxed store of `v` in `a` was made.
pub open spec fn core_u32_stored(a: core::sync::atomic::AtomicU32, v: u32) -> bool {
    call_ensures(
        core::sync::atomic::AtomicU32::store,
        (&a, v, core::sync::atomic::Ordering::Relaxed),
        (),
    )
}

impl Observable for portable_atomic::AtomicU32 {
    fn change_token(&self) -> (r: u32)
        ensures
            exists|v: u32| #[trigger] u32_read(*self, v) && r == v as u32,
    {
        let v: u32 = self.get();
        u32_token(v)
    }
}

impl Sink for portable_atomic::AtomicU32 {
    type Item = u32;

    fn put(&self, v: u32)
        ensures
            u32_stored(*self, v),
    {
        store_u32(self, v)
    }
}

impl Source for portable_atomic::AtomicU32 {
    type Item = u32;

    fn get(&self) -> (r: u32)
        ensures
            u32_read(*self, r),
    {
        load_u32(self)
    }
}

impl Observable for core::sync::atomic::AtomicU32 {
    fn change_token(&self) -> (r: u32)
        ensures
            exists|v: u32| #[trigger] core_u32_read(*self, v) && r == v as u32,
    {
        let v: u32 = self.get();
        u32_token(v)
    }
}

impl Sink for core::sync::atomic::AtomicU32 {
    type Item = u32;

    fn put(&self, v: u32)
        ensures
            core_u32_stored(*self, v),
    {
        self.store(v, core::sync::atomic::Ordering::Relaxed)
    }
}

impl Source for core::sync::atomic::AtomicU32 {
    type Item = u32;

    fn get(&self) -> (r: u32)
        ensures
            core_u32_read(*self, r),
    {
        self.load(core::sync::atomic::Ordering::Relaxed)
    }
}

/// The type `portable_atomic::AtomicU64`, opaque here.
#[verifier::external_type_specification]
#[verifier::external_body]
pub struct ExPortableU64(portable_atomic::AtomicU64);

/// `portable_atomic::AtomicU64::load`, relaxed. What is read depends on other writers.
#[verifier::external_body]
fn load_u64(a: &portable_atomic::AtomicU64) -> u64 {
    a.load(portable_atomic::Ordering::Relaxed)
}

/// `portable_atomic::AtomicU64::store`, relaxed.
#[verifier::external_body]
fn store_u64(a: &portable_atomic::AtomicU64, v: u64) {
    a.store(v, portable_atomic::Ordering::Relaxed)
}

/// A relaxed load of `a` gave `v`.
pub closed spec fn u64_read(a: portable_atomic::AtomicU64, v: u64) -> bool {
    call_ensures(load_u64, (&a,), v)
}

/// A relaxed store of `v` in `a` was made.
pub closed spec fn u64_stored(a: portable_atomic::AtomicU64, v: u64) -> bool {
    call_ensures(store_u64, (&a, v), ())
}

/// A relaxed load of `a` gave `v`.
pub open spec fn core_u64_read(a: core::sync::atomic::AtomicU64, v: u64) -> bool {
    call_ensures(
        core::sync::atomic::AtomicU64::load,
        (&a, core::sync::atomic::Ordering::Relaxed),
        v,
    )
}

/// A relaxed store of `v` in `a` was made.
pub open spec fn core_u64_stored(a: core::sync::atomic::AtomicU64, v: u64) -> bool {
    call_ensures(
        core::sync::atomic::AtomicU64::store,
        (&a, v, core::sync::atomic::Ordering::Relaxed),
        (),
    )
}

impl Observable for portable_atomic::AtomicU64 {
    fn change_token(&self) -> (r: u32)
        ensures
            exists|v: u64| #[trigger] u64_read(*self, v) && r == v as u32,
    {
        let v: u64 = self.get();
        u64_token(v)
    }
}

impl Sink for portable_atomic::AtomicU64 {
    type Item = u64;

    fn put(&self, v: u64)
        ensures
            u64_stored(*self, v),
    {
        store_u64(self, v)
    }
}

impl Source for portable_atomic::AtomicU64 {
    type Item = u64;

    fn get(&self) -> (r: u64)
        ensures
            u64_read(*self, r),
    {
        load_u64(self)
    }
}

impl Observable for core::sync::atomic::AtomicU64 {
    fn change_token(&self) -> (r: u32)
        ensures
            exists|v: u64| #[trigger] core_u64_read(*self, v) && r == v as u32,
    {
        let v: u64 = self.get();
        u64_token(v)
    }
}

impl Sink for core::sync::atomic::AtomicU64 {
    type Item = u64;

    fn put(&self, v: u64)
        ensures
            core_u64_stored(*self, v),
    {
        self.store(v, core::sync::atomic::Ordering::Relaxed)
    }
}

impl Source for core::sync::atomic::AtomicU64 {
    type Item = u64;

    fn get(&self) -> (r: u64)
        ensures
            core_u64_read(*self, r),
    {
        self.load(core::sync::atomic::Ordering::Relaxed)
    }
}

/// The type `portable_atomic::AtomicUsize`, opaque here.
#[verifier::external_type_specification]
#[verifier::external_body]
pub struct ExPortableUsize(portable_atomic::AtomicUsize);

/// `portable_atomic::AtomicUsize::load`, relaxed. What is read depends on other writers.
#[verifier::external_body]
fn load_usize(a: &portable_atomic::AtomicUsize) -> usize {
    a.load(portable_atomic::Ordering::Relaxed)
}

/// `portable_atomic::AtomicUsize::store`, relaxed.
#[verifier::external_body]
fn store_usize(a: &portable_atomic::AtomicUsize, v: usize) {
    a.store(v, portable_atomic::Ordering::Relaxed)
}

/// A relaxed load of `a` gave `v`.
pub closed spec fn usize_read(a: portable_atomic::AtomicUsize, v: usize) -> bool {
    call_ensures(load_usize, (&a,), v)
}

/// A relaxed store of `v` in `a` was made.
pub closed spec fn usize_stored(a: portable_atomic::AtomicUsize, v: usize) -> bool {
    call_ensures(store_usize, (&a, v), ())
}

/// A relaxed load of `a` gave `v`.
pub open spec fn core_usize_read(a: core::sync::atomic::AtomicUsize, v: usize) -> bool {
    call_ensures(
        core::sync::atomic::AtomicUsize::load,
        (&a, core::sync::atomic::Ordering::Relaxed),
        v,
    )
}

/// A relaxed store of `v` in `a` was made.
pub open spec fn core_usize_stored(a: core::sync::atomic::AtomicUsize, v: usize) -> bool {
    call_ensures(
        core::sync::atomic::AtomicUsize::store,
        (&a, v, core::sync::atomic::Ordering::Relaxed),
        (),
    )
}

impl Observable for portable_atomic::AtomicUsize {
    fn change_token(&self) -> (r: u32)
        ensures
            exists|v: usize| #[trigger] usize_read(*self, v) && r == v as u32,
    {
        let v: usize = self.get();
        usize_token(v)
    }
}

impl Sink for portable_atomic::AtomicUsize {
    type Item = usize;

    fn put(&self, v: usize)
        ensures
            usize_stored(*self, v),
    {
        store_usize(self, v)
    }
}

impl Source for portable_atomic::AtomicUsize {
    type Item = usize;

    fn get(&self) -> (r: usize)
        ensures
            usize_read(*self, r),
    {
        load_usize(self)
    }
}

impl Observable for core::sync::atomic::AtomicUsize {
    fn change_token(&self) -> (r: u32)
        ensures
            exists|v: usize| #[trigger] core_usize_read(*self, v) && r == v as u32,
    {
        let v: usize = self.get();
        usize_token(v)
    }
}

impl Sink for core::sync::atomic::AtomicUsize {
    type Item = usize;

    fn put(&self, v: usize)
        ensures
            core_usize_stored(*self, v),
    {
        self.store(v, core::sync::atomic::Ordering::Relaxed)
    }
}

impl Source for core::sync::atomic::AtomicUsize {
    type Item = usize;

    fn get(&self) -> (r: usize)
        ensures
            core_usize_read(*self, r),
    {
        self.load(core::sync::atomic::Ordering::Relaxed)
    }
}

/// The type `portable_atomic::AtomicI8`, opaque here.
#[verifier::external_type_specification]
#[verifier::external_body]
pub struct ExPortableI8(portable_atomic::AtomicI8);

/// `portable_atomic::AtomicI8::load`, relaxed. What is read depends on other writers.
#[verifier::external_body]
fn load_i8(a: &portable_atomic::AtomicI8) -> i8 {
    a.load(portable_atomic::Ordering::Relaxed)
}

/// `portable_atomic::AtomicI8::store`, relaxed.
#[verifier::external_body]
fn store_i8(a: &portable_atomic::AtomicI8, v: i8) {
    a.store(v, portable_atomic::Ordering::Relaxed)
}

/// A relaxed load of `a` gave `v`.
pub closed spec fn i8_read(a: portable_atomic::AtomicI8, v: i8) -> bool {
    call_ensures(load_i8, (&a,), v)
}

/// A relaxed store of `v` in `a` was made.
pub closed spec fn i8_stored(a: portable_atomic::AtomicI8, v: i8) -> bool {
    call_ensures(store_i8, (&a, v), ())
}

/// A relaxed load of `a` gave `v`.
pub open spec fn core_i8_read(a: core::sync::atomic::AtomicI8, v: i8) -> bool {
    call_ensures(
        core::sync::atomic::AtomicI8::load,
        (&a, core::sync::atomic::Ordering::Relaxed),
        v,
    )
}

/// A relaxed store of `v` in `a` was made.
pub open spec fn core_i8_stored(a: core::sync::atomic::AtomicI8, v: i8) -> bool {
    call_ensures(
        core::sync::atomic::AtomicI8::store,
        (&a, v, core::sync::atomic::Ordering::Relaxed),
        (),
    )
}

impl Observable for portable_atomic::AtomicI8 {
    fn change_token(&self) -> (r: u32)
        ensures
            exists|v: i8| #[trigger] i8_read(*self, v) && r == v as u32,
            r <= 127 || r >= 0xffff_ff80,
    {
        let v: i8 = self.get();
        i8_token(v)
    }
}

impl Sink for portable_atomic::AtomicI8 {
    type Item = i8;

    fn put(&self, v: i8)
        ensures
            i8_stored(*self, v),
    {
        store_i8(self, v)
    }
}

impl Source for portable_atomic::AtomicI8 {
    type Item = i8;

    fn get(&self) -> (r: i8)
        ensures
            i8_read(*self, r),
    {
        load_i8(self)
    }
}

impl Observable for core::sync::atomic::AtomicI8 {
    fn change_token(&self) -> (r: u32)
        ensures
            exists|v: i8| #[trigger] core_i8_read(*self, v) && r == v as u32,
            r <= 127 || r >= 0xffff_ff80,
    {
        let v: i8 = self.get();
        i8_token(v)
    }
}

impl Sink for core::sync::atomic::AtomicI8 {
    type Item = i8;

    fn put(&self, v: i8)
        ensures
            core_i8_stored(*self, v),
    {
        self.store(v, core::sync::atomic::Ordering::Relaxed)
    }
}

impl Source for core::sync::atomic::AtomicI8 {
    type Item = i8;

    fn get(&self) -> (r: i8)
        ensures
            core_i8_read(*self, r),
    {
        self.load(core::sync::atomic::Ordering::Relaxed)
    }
}

/// The type `portable_atomic::AtomicI16`, opaque here.
#[verifier::external_type_specification]
#[verifier::external_body]
pub struct ExPortableI16(portable_atomic::AtomicI16);

/// `portable_atomic::AtomicI16::load`, relaxed. What is read depends on other writers.
#[verifier::external_body]
fn load_i16(a: &portable_atomic::AtomicI16) -> i16 {
    a.load(portable_atomic::Ordering::Relaxed)
}

/// `portable_atomic::AtomicI16::store`, relaxed.
#[verifier::external_body]
fn store_i16(a: &portable_atomic::AtomicI16, v: i16) {
    a.store(v, portable_atomic::Ordering::Relaxed)
}

/// A relaxed load of `a` gave `v`.
pub closed spec fn i16_read(a: portable_atomic::AtomicI16, v: i16) -> bool {
    call_ensures(load_i16, (&a,), v)
}

/// A relaxed store of `v` in `a` was made.
pub closed spec fn i16_stored(a: portable_atomic::AtomicI16, v: i16) -> bool {
    call_ensures(store_i16, (&a, v), ())
}

/// A relaxed load of `a` gave `v`.
pub open spec fn core_i16_read(a: core::sync::atomic::AtomicI16, v: i16) -> bool {
    call_ensures(
        core::sync::atomic::AtomicI16::load,
        (&a, core::sync::atomic::Ordering::Relaxed),
        v,
    )
}

/// A relaxed store of `v` in `a` was made.
pub open spec fn core_i16_stored(a: core::sync::atomic::AtomicI16, v: i16) -> bool {
    call_ensures(
        core::sync::atomic::AtomicI16::store,
        (&a, v, core::sync::atomic::Ordering::Relaxed),
        (),
    )
}

impl Observable for portable_atomic::AtomicI16 {
    fn change_token(&self) -> (r: u32)
        ensures
            exists|v: i16| #[trigger] i16_read(*self, v) && r == v as u32,
            r <= 32767 || r >= 0xffff_8000,
    {
        let v: i16 = self.get();
        i16_token(v)
    }
}

impl Sink for portable_atomic::AtomicI16 {
    type Item = i16;

    fn put(&self, v: i16)
        ensures
            i16_stored(*self, v),
    {
        store_i16(self, v)
    }
}

impl Source for portable_atomic::AtomicI16 {
    type Item = i16;

    fn get(&self) -> (r: i16)
        ensures
            i16_read(*self, r),
    {
        load_i16(self)
    }
}

impl Observable for core::sync::atomic::AtomicI16 {
    fn change_token(&self) -> (r: u32)
        ensures
            exists|v: i16| #[trigger] core_i16_read(*self, v) && r == v as u32,
            r <= 32767 || r >= 0xffff_8000,
    {
        let v: i16 = self.get();
        i16_token(v)
    }
}

impl Sink for core::sync::atomic::AtomicI16 {
    type Item = i16;

    fn put(&self, v: i16)
        ensures
            core_i16_stored(*self, v),
    {
        self.store(v, core::sync::atomic::Ordering::Relaxed)
    }
}

impl Source for core::sync::atomic::AtomicI16 {
    type Item = i16;

    fn get(&self) -> (r: i16)
        ensures
            core_i16_read(*self, r),
    {
        self.load(core::sync::atomic::Ordering::Relaxed)
    }
}

/// The type `portable_atomic::AtomicI32`, opaque here.
#[verifier::external_type_specification]
#[verifier::external_body]
pub struct ExPortableI32(portable_atomic::AtomicI32);

/// `portable_atomic::AtomicI32::load`, relaxed. What is read depends on other writers.
#[verifier::external_body]
fn load_i32(a: &portable_atomic::AtomicI32) -> i32 {
    a.load(portable_atomic::Ordering::Relaxed)
}

/// `portable_atomic::AtomicI32::store`, relaxed.
#[verifier::external_body]
fn store_i32(a: &portable_atomic::AtomicI32, v: i32) {
    a.store(v, portable_atomic::Ordering::Relaxed)
}

/// A relaxed load of `a` gave `v`.
pub closed spec fn i32_read(a: portable_atomic::AtomicI32, v: i32) -> bool {
    call_ensures(load_i32, (&a,), v)
}

/// A relaxed store of `v` in `a` was made.
pub closed spec fn i32_stored(a: portable_atomic::AtomicI32, v: i32) -> bool {
    call_ensures(store_i32, (&a, v), ())
}

/// A relaxed load of `a` gave `v`.
pub open spec fn core_i32_read(a: core::sync::atomic::AtomicI32, v: i32) -> bool {
    call_ensures(
        core::sync::atomic::AtomicI32::load,
        (&a, core::sync::atomic::Ordering::Relaxed),
        v,
    )
}

/// A relaxed store of `v` in `a` was made.
pub open spec fn core_i32_stored(a: core::sync::atomic::AtomicI32, v: i32) -> bool {
    call_ensures(
        core::sync::atomic::AtomicI32::store,
        (&a, v, core::sync::atomic::Ordering::Relaxed),
        (),
    )
}

impl Observable for portable_atomic::AtomicI32 {
    fn change_token(&self) -> (r: u32)
        ensures
            exists|v: i32| #[trigger] i32_read(*self, v) && r == v as u32,
    {
        let v: i32 = self.get();
        i32_token(v)
    }
}

impl Sink for portable_atomic::AtomicI32 {
    type Item = i32;

    fn put(&self, v: i32)
        ensures
            i32_stored(*self, v),
    {
        store_i32(self, v)
    }
}

impl Source for portable_atomic::AtomicI32 {
    type Item = i32;

    fn get(&self) -> (r: i32)
        ensures
            i32_read(*self, r),
    {
        load_i32(self)
    }
}

impl Observable for core::sync::atomic::AtomicI32 {
    fn change_token(&self) -> (r: u32)
        ensures
            exists|v: i32| #[trigger] core_i32_read(*self, v) && r == v as u32,
    {
        let v: i32 = self.get();
        i32_token(v)
    }
}

impl Sink for core::sync::atomic::AtomicI32 {
    type Item = i32;

    fn put(&self, v: i32)
        ensures
            core_i32_stored(*self, v),
    {
        self.store(v, core::sync::atomic::Ordering::Relaxed)
    }
}

impl Source for core::sync::atomic::AtomicI32 {
    type Item = i32;

    fn get(&self) -> (r: i32)
        ensures
            core_i32_read(*self, r),
    {
        self.load(core::sync::atomic::Ordering::Relaxed)
    }
}

/// The type `portable_atomic::AtomicI64`, opaque here.
#[verifier::external_type_specification]
#[verifier::external_body]
pub struct ExPortableI64(portable_atomic::AtomicI64);

/// `portable_atomic::AtomicI64::load`, relaxed. What is read depends on other writers.
#[verifier::external_body]
fn load_i64(a: &portable_atomic::AtomicI64) -> i64 {
    a.load(portable_atomic::Ordering::Relaxed)
}

/// `portable_atomic::AtomicI64::store`, relaxed.
#[verifier::external_body]
fn store_i64(a: &portable_atomic::AtomicI64, v: i64) {
    a.store(v, portable_atomic::Ordering::Relaxed)
}

/// A relaxed load of `a` gave `v`.
pub closed spec fn i64_read(a: portable_atomic::AtomicI64, v: i64) -> bool {
    call_ensures(load_i64, (&a,), v)
}

/// A relaxed store of `v` in `a` was made.
pub closed spec fn i64_stored(a: portable_atomic::AtomicI64, v: i64) -> bool {
    call_ensures(store_i64, (&a, v), ())
}

/// A relaxed load of `a` gave `v`.
pub open spec fn core_i64_read(a: core::sync::atomic::AtomicI64, v: i64) -> bool {
    call_ensures(
        core::sync::atomic::AtomicI64::load,
        (&a, core::sync::atomic::Ordering::Relaxed),
        v,
    )
}

/// A relaxed store of `v` in `a` was made.
pub open spec fn core_i64_stored(a: core::sync::atomic::AtomicI64, v: i64) -> bool {
    call_ensures(
        core::sync::atomic::AtomicI64::store,
        (&a, v, core::sync::atomic::Ordering::Relaxed),
        (),
    )
}

impl Observable for portable_atomic::AtomicI64 {
    fn change_token(&self) -> (r: u32)
        ensures
            exists|v: i64| #[trigger] i64_read(*self, v) && r == v as u32,
    {
        let v: i64 = self.get();
        i64_token(v)
    }
}

impl Sink for portable_atomic::AtomicI64 {
    type Item = i64;

    fn put(&self, v: i64)
        ensures
            i64_stored(*self, v),
    {
        store_i64(self, v)
    }
}

impl Source for portable_atomic::AtomicI64 {
    type Item = i64;

    fn get(&self) -> (r: i64)
        ensures
            i64_read(*self, r),
    {
        load_i64(self)
    }
}

impl Observable for core::sync::atomic::AtomicI64 {
    fn change_token(&self) -> (r: u32)
        ensures
            exists|v: i64| #[trigger] core_i64_read(*self, v) && r == v as u32,
    {
        let v: i64 = self.get();
        i64_token(v)
    }
}

impl Sink for core::sync::atomic::AtomicI64 {
    type Item = i64;

    fn put(&self, v: i64)
        ensures
            core_i64_stored(*self, v),
    {
        self.store(v, core::sync::atomic::Ordering::Relaxed)
    }
}

impl Source for core::sync::atomic::AtomicI64 {
    type Item = i64;

    fn get(&self) -> (r: i64)
        ensures
            core_i64_read(*self, r),
    {
        self.load(core::sync::atomic::Ordering::Relaxed)
    }
}

/// The type `portable_atomic::AtomicIsize`, opaque here.
#[verifier::external_type_specification]
#[verifier::external_body]
pub struct ExPortableIsize(portable_atomic::AtomicIsize);

/// `portable_atomic::AtomicIsize::load`, relaxed. What is read depends on other writers.
#[verifier::external_body]
fn load_isize(a: &portable_atomic::AtomicIsize) -> isize {
    a.load(portable_atomic::Ordering::Relaxed)
}

/// `portable_atomic::AtomicIsize::store`, relaxed.
#[verifier::external_body]
fn store_isize(a: &portable_atomic::AtomicIsize, v: isize) {
    a.store(v, portable_atomic::Ordering::Relaxed)
}

/// A relaxed load of `a` gave `v`.
pub closed spec fn isize_read(a: portable_atomic::AtomicIsize, v: isize) -> bool {
    call_ensures(load_isize, (&a,), v)
}

/// A relaxed store of `v` in `a` was made.
pub closed spec fn isize_stored(a: portable_atomic::AtomicIsize, v: isize) -> bool {
    call_ensures(store_isize, (&a, v), ())
}

/// A relaxed load of `a` gave `v`.
pub open spec fn core_isize_read(a: core::sync::atomic::AtomicIsize, v: isize) -> bool {
    call_ensures(
        core::sync::atomic::AtomicIsize::load,
        (&a, core::sync::atomic::Ordering::Relaxed),
        v,
    )
}

/// A relaxed store of `v` in `a` was made.
pub open spec fn core_isize_stored(a: core::sync::atomic::AtomicIsize, v: isize) -> bool {
    call_ensures(
        core::sync::atomic::AtomicIsize::store,
        (&a, v, core::sync::atomic::Ordering::Relaxed),
        (),
    )
}

impl Observable for portable_atomic::AtomicIsize {
    fn change_token(&self) -> (r: u32)
        ensures
            exists|v: isize| #[trigger] isize_read(*self, v) && r == v as u32,
    {
        let v: isize = self.get();
        isize_token(v)
    }
}

impl Sink for portable_atomic::AtomicIsize {
    type Item = isize;

    fn put(&self, v: isize)
        ensures
            isize_stored(*self, v),
    {
        store_isize(self, v)
    }
}

impl Source for portable_atomic::AtomicIsize {
    type Item = isize;

    fn get(&self) -> (r: isize)
        ensures
            isize_read(*self, r),
    {
        load_isize(self)
    }
}

impl Observable for core::sync::atomic::AtomicIsize {
    fn change_token(&self) -> (r: u32)
        ensures
            exists|v: isize| #[trigger] core_isize_read(*self, v) && r == v as u32,
    {
        let v: isize = self.get();
        isize_token(v)
    }
}

impl Sink for core::sync::atomic::AtomicIsize {
    type Item = isize;

    fn put(&self, v: isize)
        ensures
            core_isize_stored(*self, v),
    {
        self.store(v, core::sync::atomic::Ordering::Relaxed)
    }
}

impl Source for core::sync::atomic::AtomicIsize {
    type Item = isize;

    fn get(&self) -> (r: isize)
        ensures
            core_isize_read(*self, r),
    {
        self.load(core::sync::atomic::Ordering::Relaxed)
    }
}

/// The type `portable_atomic::AtomicBool`, opaque here.
#[verifier::external_type_specification]
#[verifier::external_body]
pub struct ExPortableBool(portable_atomic::AtomicBool);

/// `portable_atomic::AtomicBool::load`, relaxed. What is read depends on other writers.
#[verifier::external_body]
fn load_bool(a: &portable_atomic::AtomicBool) -> bool {
    a.load(portable_atomic::Ordering::Relaxed)
}

/// `portable_atomic::AtomicBool::store`, relaxed.
#[verifier::external_body]
fn store_bool(a: &portable_atomic::AtomicBool, v: bool) {
    a.store(v, portable_atomic::Ordering::Relaxed)
}

/// A relaxed load of `a` gave `v`.
pub closed spec fn bool_read(a: portable_atomic::AtomicBool, v: bool) -> bool {
    call_ensures(load_bool, (&a,), v)
}

/// A relaxed store of `v` in `a` was made.
pub closed spec fn bool_stored(a: portable_atomic::AtomicBool, v: bool) -> bool {
    call_ensures(store_bool, (&a, v), ())
}

/// A relaxed load of `a` gave `v`.
pub open spec fn core_bool_read(a: core::sync::atomic::AtomicBool, v: bool) -> bool {
    call_ensures(
        core::sync::atomic::AtomicBool::load,
        (&a, core::sync::atomic::Ordering::Relaxed),
        v,
    )
}

/// A relaxed store of `v` in `a` was made.
pub open spec fn core_bool_stored(a: core::sync::atomic::AtomicBool, v: bool) -> bool {
    call_ensures(
        core::sync::atomic::AtomicBool::store,
        (&a, v, core::sync::atomic::Ordering::Relaxed),
        (),
    )
}

impl Observable for portable_atomic::AtomicBool {
    fn change_token(&self) -> (r: u32)
        ensures
            exists|v: bool| #[trigger] bool_read(*self, v) && r == if v {
                1u32
            } else {
                0u32
            },
            r <= 1,
    {
        let v: bool = self.get();
        bool_token(v)
    }
}

impl Sink for portable_atomic::AtomicBool {
    type Item = bool;

    fn put(&self, v: bool)
        ensures
            bool_stored(*self, v),
    {
        store_bool(self, v)
    }
}

impl Source for portable_atomic::AtomicBool {
    type Item = bool;

    fn get(&self) -> (r: bool)
        ensures
            bool_read(*self, r),
    {
        load_bool(self)
    }
}

impl Observable for core::sync::atomic::AtomicBool {
    fn change_token(&self) -> (r: u32)
        ensures
            exists|v: bool| #[trigger] core_bool_read(*self, v) && r == if v {
                1u32
            } else {
                0u32
            },
            r <= 1,
    {
        let v: bool = self.get();
        bool_token(v)
    }
}

impl Sink for core::sync::atomic::AtomicBool {
    type Item = bool;

    fn put(&self, v: bool)
        ensures
            core_bool_stored(*self, v),
    {
        self.store(v, core::sync::atomic::Ordering::Relaxed)
    }
}

impl Source for core::sync::atomic::AtomicBool {
    type Item = bool;

    fn get(&self) -> (r: bool)
        ensures
            core_bool_read(*self, r),
    {
        self.load(core::sync::atomic::Ordering::Relaxed)
    }
}

/// `portable_atomic::AtomicU32::new`.
#[verifier::external_body]
fn new_u32(v: u32) -> portable_atomic::AtomicU32 {
    portable_atomic::AtomicU32::new(v)
}

/// `portable_atomic::AtomicU32::fetch_add`, relaxed: adds `n`, wrapping. What is handed back, the
/// value before, depends on other writers.
#[verifier::external_body]
fn add_u32(a: &portable_atomic::AtomicU32, n: u32) -> u32 {
    a.fetch_add(n, portable_atomic::Ordering::Relaxed)
}

/// `a` was made with the value `v`.
pub closed spec fn u32_made(a: portable_atomic::AtomicU32, v: u32) -> bool {
    call_ensures(new_u32, (v,), a)
}

/// `n` was added to `a`, relaxed.
pub closed spec fn u32_added(a: portable_atomic::AtomicU32, n: u32) -> bool {
    exists|before: u32| call_ensures(add_u32, (&a, n), before)
}

fn advance(a: &portable_atomic::AtomicU32)
    ensures
        u32_added(*a, 1),
{
    let before: u32 = add_u32(a, 1);
    assert(call_ensures(add_u32, (a, 1u32), before));
}

/// A wrapper that counts accesses to an inner signal.
///
/// Use it where the wrapped type does not itself advance a count on every write: even a rewrite that
/// carries the same value registers as an access. Calls through [`inner`](Self::inner) are not
/// counted.
///
/// The contracts say which counter a call reads or advances, and by how much. What a counter holds
/// between two calls they leave open: whoever else holds the signal may advance it.
pub struct Counted<T> {
    inner: T,
    writes: portable_atomic::AtomicU32,
    reads: portable_atomic::AtomicU32,
}

impl<T> Counted<T> {
    /// The wrapped signal.
    pub closed spec fn wrapped(&self) -> T {
        self.inner
    }

    /// The counter that a write advances.
    pub closed spec fn write_counter(&self) -> portable_atomic::AtomicU32 {
        self.writes
    }

    /// The counter that a read advances.
    pub closed spec fn read_counter(&self) -> portable_atomic::AtomicU32 {
        self.reads
    }

    /// Wraps `inner` with zero read and write counts.
    pub fn new(inner: T) -> (r: Self)
        ensures
            r.wrapped() == inner,
            u32_made(r.write_counter(), 0),
            u32_made(r.read_counter(), 0),
    {
        Counted { inner, writes: new_u32(0), reads: new_u32(0) }
    }

    /// Borrows the inner signal, counting this as one write.
    pub fn w(&self) -> (r: &T)
        ensures
            *r == self.wrapped(),
            u32_added(self.write_counter(), 1),
    {
        advance(&self.writes);
        &self.inner
    }

    /// Borrows the inner signal, counting this as one read.
    pub fn r(&self) -> (r: &T)
        ensures
            *r == self.wrapped(),
            u32_added(self.read_counter(), 1),
    {
        advance(&self.reads);
        &self.inner
    }

    /// Borrows the inner signal without changing any count.
    pub fn inner(&self) -> (r: &T)
        ensures
            *r == self.wrapped(),
    {
        &self.inner
    }

    /// The number of counted writes.
    pub fn writes(&self) -> (r: u32)
        ensures
            u32_read(self.write_counter(), r),
    {
        load_u32(&self.writes)
    }

    /// The number of counted reads.
    pub fn reads(&self) -> (r: u32)
        ensures
            u32_read(self.read_counter(), r),
    {
        load_u32(&self.reads)
    }
}

impl<T> Observable for Counted<T> {
    /// The number of counted writes, so that every write advances it.
    fn change_token(&self) -> (r: u32)
        ensures
            u32_read(self.write_counter(), r),
    {
        self.writes()
    }
}

impl<T: Sink> Sink for Counted<T> {
    type Item = T::Item;

    fn put(&self, v: T::Item)
        ensures
            u32_added(self.write_counter(), 1),
            call_ensures(T::put, (&self.wrapped(), v), ()),
    {
        self.w().put(v)
    }
}

impl<T: Source> Source for Counted<T> {
    type Item = T::Item;

    fn get(&self) -> (r: T::Item)
        ensures
            u32_added(self.read_counter(), 1),
            call_ensures(T::get, (&self.wrapped(),), r),
    {
        self.r().get()
    }
}

} // verus!
