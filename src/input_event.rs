//! The `input_event` record in its native (64-bit time) and compat (32-bit
//! time) layouts, and the widening of the second into the first. Multi-byte
//! fields are little-endian.

use vstd::prelude::*;
use crate::bytes::{
    le_bytes, le_value, lemma_le_bytes_of_value, lemma_le_value_bound, lemma_le_value_zero_extend,
    lemma_pow256_8, push_le, read_le,
};
use crate::text::{chars_of, chars_eq_str};

verus! {

/// Size of a native `input_event` record.
pub const NATIVE_EVENT_SIZE: usize = 24;

/// Size of a compat `input_event` record.
pub const COMPAT_EVENT_SIZE: usize = 16;

/// An input event in the layout of the host kernel.
#[derive(Clone, Copy, Debug, PartialEq, Eq, Structural)]
pub struct InputEvent {
    pub sec: i64,
    pub usec: i64,
    pub type_: u16,
    pub code: u16,
    pub value: i32,
}

/// An input event as a 32-bit process writes it.
#[allow(non_camel_case_types)]
#[derive(Clone, Copy, Debug, PartialEq, Eq, Structural)]
pub struct input_event_compat {
    pub input_event_sec: u32,
    pub input_event_usec: u32,
    pub type_: u16,
    pub code: u16,
    pub value: i32,
}

/// The event that 24 native bytes hold.
pub open spec fn native_event_of(b: Seq<u8>) -> InputEvent {
    InputEvent {
        sec: le_value(b.subrange(0, 8)) as u64 as i64,
        usec: le_value(b.subrange(8, 16)) as u64 as i64,
        type_: le_value(b.subrange(16, 18)) as u16,
        code: le_value(b.subrange(18, 20)) as u16,
        value: le_value(b.subrange(20, 24)) as u32 as i32,
    }
}

/// The compat event that 16 bytes hold.
pub open spec fn compat_event_of(b: Seq<u8>) -> input_event_compat {
    input_event_compat {
        input_event_sec: le_value(b.subrange(0, 4)) as u32,
        input_event_usec: le_value(b.subrange(4, 8)) as u32,
        type_: le_value(b.subrange(8, 10)) as u16,
        code: le_value(b.subrange(10, 12)) as u16,
        value: le_value(b.subrange(12, 16)) as u32 as i32,
    }
}

/// The canonical 24-byte serialization of an event.
pub open spec fn event_bytes(e: InputEvent) -> Seq<u8> {
    le_bytes(e.sec as u64 as nat, 8) + le_bytes(e.usec as u64 as nat, 8) + le_bytes(
        e.type_ as nat,
        2,
    ) + le_bytes(e.code as nat, 2) + le_bytes(e.value as u32 as nat, 4)
}

/// The 16-byte serialization of a compat event.
pub open spec fn compat_event_bytes(c: input_event_compat) -> Seq<u8> {
    le_bytes(c.input_event_sec as nat, 4) + le_bytes(c.input_event_usec as nat, 4) + le_bytes(
        c.type_ as nat,
        2,
    ) + le_bytes(c.code as nat, 2) + le_bytes(c.value as u32 as nat, 4)
}

/// A compat event with its time fields widened.
pub open spec fn widened(c: input_event_compat) -> InputEvent {
    InputEvent {
        sec: c.input_event_sec as i64,
        usec: c.input_event_usec as i64,
        type_: c.type_,
        code: c.code,
        value: c.value,
    }
}

/// A native event with its time fields cut to 32 bits.
pub open spec fn narrowed(e: InputEvent) -> input_event_compat {
    input_event_compat {
        input_event_sec: e.sec as u32,
        input_event_usec: e.usec as u32,
        type_: e.type_,
        code: e.code,
        value: e.value,
    }
}

/// Reads the native event at `off`.
pub fn decode_event(b: &[u8], off: usize) -> (e: InputEvent)
    requires
        off + NATIVE_EVENT_SIZE <= b.len(),
    ensures
        e == native_event_of(b@.subrange(off as int, off + NATIVE_EVENT_SIZE)),
{
    let ghost r = b@.subrange(off as int, off + 24);
    let sec = read_le(b, off, 8);
    let usec = read_le(b, off + 8, 8);
    let type_ = read_le(b, off + 16, 2);
    let code = read_le(b, off + 18, 2);
    let value = read_le(b, off + 20, 4);
    proof {
        assert(r.subrange(0, 8) =~= b@.subrange(off as int, off + 8));
        assert(r.subrange(8, 16) =~= b@.subrange(off + 8, off + 16));
        assert(r.subrange(16, 18) =~= b@.subrange(off + 16, off + 18));
        assert(r.subrange(18, 20) =~= b@.subrange(off + 18, off + 20));
        assert(r.subrange(20, 24) =~= b@.subrange(off + 20, off + 24));
        lemma_le_value_bound(b@.subrange(off + 16, off + 18));
        lemma_le_value_bound(b@.subrange(off + 18, off + 20));
        lemma_le_value_bound(b@.subrange(off + 20, off + 24));
        lemma_pow256_8();
    }
    InputEvent {
        sec: sec as i64,
        usec: usec as i64,
        type_: type_ as u16,
        code: code as u16,
        value: value as u32 as i32,
    }
}

/// Reads the compat event at `off`.
pub fn decode_compat_event(b: &[u8], off: usize) -> (c: input_event_compat)
    requires
        off + COMPAT_EVENT_SIZE <= b.len(),
    ensures
        c == compat_event_of(b@.subrange(off as int, off + COMPAT_EVENT_SIZE)),
{
    let ghost r = b@.subrange(off as int, off + 16);
    let sec = read_le(b, off, 4);
    let usec = read_le(b, off + 4, 4);
    let type_ = read_le(b, off + 8, 2);
    let code = read_le(b, off + 10, 2);
    let value = read_le(b, off + 12, 4);
    proof {
        assert(r.subrange(0, 4) =~= b@.subrange(off as int, off + 4));
        assert(r.subrange(4, 8) =~= b@.subrange(off + 4, off + 8));
        assert(r.subrange(8, 10) =~= b@.subrange(off + 8, off + 10));
        assert(r.subrange(10, 12) =~= b@.subrange(off + 10, off + 12));
        assert(r.subrange(12, 16) =~= b@.subrange(off + 12, off + 16));
        lemma_le_value_bound(b@.subrange(off as int, off + 4));
        lemma_le_value_bound(b@.subrange(off + 4, off + 8));
        lemma_le_value_bound(b@.subrange(off + 8, off + 10));
        lemma_le_value_bound(b@.subrange(off + 10, off + 12));
        lemma_le_value_bound(b@.subrange(off + 12, off + 16));
        lemma_pow256_8();
    }
    input_event_compat {
        input_event_sec: sec as u32,
        input_event_usec: usec as u32,
        type_: type_ as u16,
        code: code as u16,
        value: value as u32 as i32,
    }
}

/// The canonical 24-byte serialization of `e`.
pub fn encode_event(e: &InputEvent) -> (r: Vec<u8>)
    ensures
        r@ == event_bytes(*e),
        r@.len() == NATIVE_EVENT_SIZE,
{
    let mut out: Vec<u8> = Vec::new();
    push_le(&mut out, e.sec as u64, 8);
    push_le(&mut out, e.usec as u64, 8);
    push_le(&mut out, e.type_ as u64, 2);
    push_le(&mut out, e.code as u64, 2);
    push_le(&mut out, e.value as u32 as u64, 4);
    proof {
        lemma_len_le_bytes(e.sec as u64 as nat, 8);
        lemma_len_le_bytes(e.usec as u64 as nat, 8);
        lemma_len_le_bytes(e.type_ as nat, 2);
        lemma_len_le_bytes(e.code as nat, 2);
        lemma_len_le_bytes(e.value as u32 as nat, 4);
        assert(out@ =~= event_bytes(*e));
    }
    out
}

/// Widens a compat event: the time fields are zero-extended, the rest is kept.
pub fn map_to_64_bit(compat: &input_event_compat) -> (r: InputEvent)
    ensures
        r == widened(*compat),
{
    InputEvent {
        sec: compat.input_event_sec as i64,
        usec: compat.input_event_usec as i64,
        type_: compat.type_,
        code: compat.code,
        value: compat.value,
    }
}

/// Whether the 32-bit ABI of machine `arch` already uses 64-bit time values:
/// all but x86_64 and ppc64 do.
pub open spec fn arch_uses_64bit_time(arch: Seq<char>) -> bool {
    arch != "x86_64"@ && arch != "ppc64"@
}

/// Whether the 32-bit ABI of machine `arch` already uses 64-bit time values.
pub fn compat_uses_64bit_time_on(arch: &str) -> (r: bool)
    ensures
        r == arch_uses_64bit_time(arch@),
{
    let a = chars_of(arch);
    !chars_eq_str(&a, "x86_64") && !chars_eq_str(&a, "ppc64")
}

/// Relies on nix::sys::utsname::uname: the machine name of the running kernel,
/// when it can be read.
#[verifier::external_body]
fn machine_name() -> (r: Option<String>) {
    nix::sys::utsname::uname().ok().and_then(|u| u.machine().to_str().map(|m| m.to_string()))
}

/// Whether the 32-bit ABI of this machine already uses 64-bit time values;
/// an unreadable machine name counts as one that does.
pub fn compat_uses_64bit_time() -> (r: bool) {
    match machine_name() {
        Some(m) => compat_uses_64bit_time_on(m.as_str()),
        None => true,
    }
}

proof fn lemma_len_le_bytes(v: nat, n: nat)
    ensures
        le_bytes(v, n).len() == n,
    decreases n,
{
    if n > 0 {
        lemma_len_le_bytes(v / 256, (n - 1) as nat);
    }
}

/// Widening a compat event and narrowing it back gives the same event;
/// the widened time fields hold the same values.
pub proof fn lemma_widen_then_narrow(c: input_event_compat)
    ensures
        narrowed(widened(c)) == c,
        widened(c).sec as int == c.input_event_sec as int,
        widened(c).usec as int == c.input_event_usec as int,
{
}

/// The native record forwarded for a compat record is the compat record with
/// four zero bytes after each time field.
pub proof fn lemma_widened_bytes(b: Seq<u8>)
    requires
        b.len() == COMPAT_EVENT_SIZE,
    ensures
        event_bytes(widened(compat_event_of(b))) == b.subrange(0, 4) + Seq::new(4, |i: int| 0u8)
            + b.subrange(4, 8) + Seq::new(4, |i: int| 0u8) + b.subrange(8, 16),
{
    let c = compat_event_of(b);
    lemma_pow256_8();
    lemma_le_value_bound(b.subrange(0, 4));
    lemma_le_value_bound(b.subrange(4, 8));
    lemma_le_value_bound(b.subrange(8, 10));
    lemma_le_value_bound(b.subrange(10, 12));
    lemma_le_value_bound(b.subrange(12, 16));
    lemma_le_bytes_zero_extend(b.subrange(0, 4), 4);
    lemma_le_bytes_zero_extend(b.subrange(4, 8), 4);
    lemma_le_bytes_of_value(b.subrange(8, 10));
    lemma_le_bytes_of_value(b.subrange(10, 12));
    lemma_le_bytes_of_value(b.subrange(12, 16));
    let v = le_value(b.subrange(12, 16));
    lemma_cast32(v as u32);
    assert(b.subrange(8, 16) =~= b.subrange(8, 10) + b.subrange(10, 12) + b.subrange(12, 16));
    assert(event_bytes(widened(c)) =~= b.subrange(0, 4) + Seq::new(4, |i: int| 0u8) + b.subrange(
        4,
        8,
    ) + Seq::new(4, |i: int| 0u8) + b.subrange(8, 10) + b.subrange(10, 12) + b.subrange(12, 16));
}

/// Eight bytes holding a four-byte value are its four bytes and four zeros.
proof fn lemma_le_bytes_zero_extend(b: Seq<u8>, n: nat)
    requires
        b.len() == 4,
        n == 4,
    ensures
        le_bytes(le_value(b) as u32 as i64 as u64 as nat, 8) == b + Seq::new(n, |i: int| 0u8),
{
    lemma_pow256_8();
    lemma_le_value_bound(b);
    let v = le_value(b);
    assert(v as u32 as i64 as u64 as nat == v);
    lemma_le_value_zero_extend(b, n);
    lemma_le_bytes_of_value(b + Seq::new(n, |i: int| 0u8));
}

proof fn lemma_cast64(x: u64)
    ensures
        x as i64 as u64 == x,
{
    assert(x as i64 as u64 == x) by (bit_vector);
}

proof fn lemma_cast32(x: u32)
    ensures
        x as i32 as u32 == x,
{
    assert(x as i32 as u32 == x) by (bit_vector);
}

/// Serializing the event that 24 bytes hold gives those bytes back.
pub proof fn lemma_event_bytes_round_trip(b: Seq<u8>)
    requires
        b.len() == NATIVE_EVENT_SIZE,
    ensures
        event_bytes(native_event_of(b)) == b,
{
    lemma_pow256_8();
    lemma_le_value_bound(b.subrange(0, 8));
    lemma_le_value_bound(b.subrange(8, 16));
    lemma_le_value_bound(b.subrange(16, 18));
    lemma_le_value_bound(b.subrange(18, 20));
    lemma_le_value_bound(b.subrange(20, 24));
    lemma_le_bytes_of_value(b.subrange(0, 8));
    lemma_le_bytes_of_value(b.subrange(8, 16));
    lemma_le_bytes_of_value(b.subrange(16, 18));
    lemma_le_bytes_of_value(b.subrange(18, 20));
    lemma_le_bytes_of_value(b.subrange(20, 24));
    let s = le_value(b.subrange(0, 8));
    let u = le_value(b.subrange(8, 16));
    let v = le_value(b.subrange(20, 24));
    lemma_cast64(s as u64);
    lemma_cast64(u as u64);
    lemma_cast32(v as u32);
    assert(b =~= b.subrange(0, 8) + b.subrange(8, 16) + b.subrange(16, 18) + b.subrange(18, 20)
        + b.subrange(20, 24));
}

} // verus!
