//! Canonical-ABI building blocks shared by the guest and the host sides:
//! little-endian loads and stores in a return area, and the UTF-8 payloads
//! that strings travel as.
use vstd::prelude::*;
use vstd::slice::slice_to_vec;
use vstd::utf8::*;

verus! {

/// Why a return area or an argument could not be lifted.
#[derive(Clone, Copy, Debug, PartialEq, Eq, Structural)]
pub enum AbiError {
    /// The return area does not have the size of the result it carries.
    AreaSize,
    /// A tag or variant byte names no known case.
    InvalidDiscriminant,
    /// There are not as many string payloads as the area refers to.
    PayloadCount,
    /// A string payload is not valid UTF-8.
    InvalidUtf8,
}

/// Why the host refused a lowered argument.
#[derive(Clone, Copy, Debug, PartialEq, Eq, Structural)]
pub enum LiftError {
    /// An integer argument does not fit the parameter's type.
    BadInt,
    /// A `bool` argument is neither 0 nor 1.
    InvalidBool,
    /// A `shutdown-option` argument is not 0, 1 or 2.
    InvalidShutdownOption,
}

/// Where a string lives in guest memory: the pointer and byte length that a
/// return area holds for it.
#[derive(Clone, Copy, Debug, PartialEq, Eq, Structural)]
pub struct StrRef {
    pub ptr: u32,
    pub len: u32,
}

/// Two to the power of 32, the modulus of 32-bit wrapping.
pub open spec fn two_pow_32() -> int {
    0x1_0000_0000
}

/// Little-endian unsigned value of the two bytes of `s` at `off`.
pub open spec fn u16_le(s: Seq<u8>, off: int) -> int {
    s[off] as int + 256 * s[off + 1] as int
}

/// Little-endian unsigned value of the four bytes of `s` at `off`.
pub open spec fn u32_le(s: Seq<u8>, off: int) -> int {
    u16_le(s, off) + 0x1_0000 * u16_le(s, off + 2)
}

/// Little-endian unsigned value of the eight bytes of `s` at `off`.
pub open spec fn u64_le(s: Seq<u8>, off: int) -> int {
    u32_le(s, off) + two_pow_32() * u32_le(s, off + 4)
}

/// Two's-complement reading of a 32-bit pattern.
pub open spec fn signed_32(u: int) -> int {
    if u < 0x8000_0000 {
        u
    } else {
        u - two_pow_32()
    }
}

/// The 32-bit pattern of a signed value (its two's complement).
pub open spec fn bits_32(v: int) -> int {
    if v >= 0 {
        v
    } else {
        v + two_pow_32()
    }
}

/// Little-endian signed value of the four bytes of `s` at `off`.
pub open spec fn i32_le(s: Seq<u8>, off: int) -> int {
    signed_32(u32_le(s, off))
}

/// `s` with the low 16 bits of `v` written little-endian at `off`.
pub closed spec fn put_le16(s: Seq<u8>, off: int, v: int) -> Seq<u8> {
    s.update(off, (v % 256) as u8).update(off + 1, ((v / 256) % 256) as u8)
}

/// `s` with the low 32 bits of `v` written little-endian at `off`.
pub closed spec fn put_le32(s: Seq<u8>, off: int, v: int) -> Seq<u8> {
    put_le16(put_le16(s, off, v % 0x1_0000), off + 2, (v / 0x1_0000) % 0x1_0000)
}

/// `s` with the low 64 bits of `v` written little-endian at `off`.
pub closed spec fn put_le64(s: Seq<u8>, off: int, v: int) -> Seq<u8> {
    put_le32(put_le32(s, off, v % two_pow_32()), off + 4, (v / two_pow_32()) % two_pow_32())
}

/// `s` with `v` written little-endian at `off`.
pub closed spec fn put_u16(s: Seq<u8>, off: int, v: u16) -> Seq<u8> {
    put_le16(s, off, v as int)
}

/// `s` with `v` written little-endian at `off`.
pub closed spec fn put_u32(s: Seq<u8>, off: int, v: u32) -> Seq<u8> {
    put_le32(s, off, v as int)
}

/// `s` with `v` written little-endian at `off`.
pub closed spec fn put_u64(s: Seq<u8>, off: int, v: u64) -> Seq<u8> {
    put_le64(s, off, v as int)
}

/// `s` with the two's complement of `v` written little-endian at `off`.
pub closed spec fn put_i32(s: Seq<u8>, off: int, v: i32) -> Seq<u8> {
    put_le32(s, off, bits_32(v as int))
}

/// The `u16` stored little-endian at `off`.
pub open spec fn u16_at(s: Seq<u8>, off: int) -> u16 {
    u16_le(s, off) as u16
}

/// The `u32` stored little-endian at `off`.
pub open spec fn u32_at(s: Seq<u8>, off: int) -> u32 {
    u32_le(s, off) as u32
}

/// The `u64` stored little-endian at `off`.
pub open spec fn u64_at(s: Seq<u8>, off: int) -> u64 {
    u64_le(s, off) as u64
}

/// The `i32` stored little-endian (two's complement) at `off`.
pub open spec fn i32_at(s: Seq<u8>, off: int) -> i32 {
    i32_le(s, off) as i32
}

/// Reading back a 16-bit store gives the stored value; the other bytes stay.
pub proof fn lemma_put_le16(s: Seq<u8>, off: int, v: int)
    requires
        0 <= off,
        off + 2 <= s.len(),
        0 <= v < 0x1_0000,
    ensures
        put_le16(s, off, v).len() == s.len(),
        u16_le(put_le16(s, off, v), off) == v,
        forall|i: int| 0 <= i < s.len() && (i < off || off + 2 <= i) ==> #[trigger] put_le16(s, off, v)[i] == s[i],
{
    let t = put_le16(s, off, v);
    assert(t[off] == (v % 256) as u8);
    assert(t[off + 1] == ((v / 256) % 256) as u8);
    assert((v / 256) % 256 == v / 256);
}

/// Reading back a 32-bit store gives the stored value; the other bytes stay.
pub proof fn lemma_put_le32(s: Seq<u8>, off: int, v: int)
    requires
        0 <= off,
        off + 4 <= s.len(),
        0 <= v < two_pow_32(),
    ensures
        put_le32(s, off, v).len() == s.len(),
        u32_le(put_le32(s, off, v), off) == v,
        forall|i: int| 0 <= i < s.len() && (i < off || off + 4 <= i) ==> #[trigger] put_le32(s, off, v)[i] == s[i],
{
    let lo = v % 0x1_0000;
    let hi = (v / 0x1_0000) % 0x1_0000;
    let t1 = put_le16(s, off, lo);
    lemma_put_le16(s, off, lo);
    lemma_put_le16(t1, off + 2, hi);
    let t2 = put_le16(t1, off + 2, hi);
    assert(t2[off] == t1[off]);
    assert(t2[off + 1] == t1[off + 1]);
    assert(u16_le(t2, off) == u16_le(t1, off));
    assert(hi == v / 0x1_0000);
}

/// Reading back a 64-bit store gives the stored value; the other bytes stay.
pub proof fn lemma_put_le64(s: Seq<u8>, off: int, v: int)
    requires
        0 <= off,
        off + 8 <= s.len(),
        0 <= v < two_pow_32() * two_pow_32(),
    ensures
        put_le64(s, off, v).len() == s.len(),
        u64_le(put_le64(s, off, v), off) == v,
        forall|i: int| 0 <= i < s.len() && (i < off || off + 8 <= i) ==> #[trigger] put_le64(s, off, v)[i] == s[i],
{
    let lo = v % two_pow_32();
    let hi = (v / two_pow_32()) % two_pow_32();
    let t1 = put_le32(s, off, lo);
    lemma_put_le32(s, off, lo);
    lemma_put_le32(t1, off + 4, hi);
    let t2 = put_le32(t1, off + 4, hi);
    assert(u32_le(t2, off) == u32_le(t1, off)) by {
        assert(t2[off] == t1[off]);
        assert(t2[off + 1] == t1[off + 1]);
        assert(t2[off + 2] == t1[off + 2]);
        assert(t2[off + 3] == t1[off + 3]);
    }
    assert(hi == v / two_pow_32()) by (nonlinear_arith)
        requires
            0 <= v < two_pow_32() * two_pow_32(),
            hi == (v / two_pow_32()) % two_pow_32(),
            two_pow_32() == 0x1_0000_0000,
    ;
    assert(v == lo + two_pow_32() * hi) by (nonlinear_arith)
        requires
            lo == v % two_pow_32(),
            hi == v / two_pow_32(),
            two_pow_32() == 0x1_0000_0000,
    ;
}

/// Reading back a stored `u16` gives it back; the other bytes stay.
pub proof fn lemma_put_u16(s: Seq<u8>, off: int, v: u16)
    requires
        0 <= off,
        off + 2 <= s.len(),
    ensures
        put_u16(s, off, v).len() == s.len(),
        u16_at(put_u16(s, off, v), off) == v,
        u16_le(put_u16(s, off, v), off) == v as int,
        forall|i: int| 0 <= i < s.len() && (i < off || off + 2 <= i) ==> #[trigger] put_u16(s, off, v)[i] == s[i],
{
    lemma_put_le16(s, off, v as int);
}

/// Reading back a stored `u32` gives it back; the other bytes stay.
pub proof fn lemma_put_u32(s: Seq<u8>, off: int, v: u32)
    requires
        0 <= off,
        off + 4 <= s.len(),
    ensures
        put_u32(s, off, v).len() == s.len(),
        u32_at(put_u32(s, off, v), off) == v,
        u32_le(put_u32(s, off, v), off) == v as int,
        forall|i: int| 0 <= i < s.len() && (i < off || off + 4 <= i) ==> #[trigger] put_u32(s, off, v)[i] == s[i],
{
    lemma_put_le32(s, off, v as int);
}

/// Reading back a stored `u64` gives it back; the other bytes stay.
pub proof fn lemma_put_u64(s: Seq<u8>, off: int, v: u64)
    requires
        0 <= off,
        off + 8 <= s.len(),
    ensures
        put_u64(s, off, v).len() == s.len(),
        u64_at(put_u64(s, off, v), off) == v,
        u64_le(put_u64(s, off, v), off) == v as int,
        forall|i: int| 0 <= i < s.len() && (i < off || off + 8 <= i) ==> #[trigger] put_u64(s, off, v)[i] == s[i],
{
    lemma_put_le64(s, off, v as int);
}

/// Reading back a stored `i32` gives it back; the other bytes stay.
pub proof fn lemma_put_i32(s: Seq<u8>, off: int, v: i32)
    requires
        0 <= off,
        off + 4 <= s.len(),
    ensures
        put_i32(s, off, v).len() == s.len(),
        i32_at(put_i32(s, off, v), off) == v,
        i32_le(put_i32(s, off, v), off) == v as int,
        u32_at(put_i32(s, off, v), off) == bits_32(v as int),
        forall|i: int| 0 <= i < s.len() && (i < off || off + 4 <= i) ==> #[trigger] put_i32(s, off, v)[i] == s[i],
{
    lemma_put_le32(s, off, bits_32(v as int));
}

/// The byte sequences of a list of payloads.
pub open spec fn byte_views(p: Seq<Vec<u8>>) -> Seq<Seq<u8>> {
    p.map_values(|b: Vec<u8>| b@)
}

/// The string reference stored at `off`: pointer, then length.
pub open spec fn str_ref_at(s: Seq<u8>, off: int) -> StrRef {
    StrRef { ptr: u32_le(s, off) as u32, len: u32_le(s, off + 4) as u32 }
}

/// Byte length of a string's payload, wrapped to 32 bits as the ABI stores it.
pub open spec fn payload_len(s: Seq<char>) -> u32 {
    ((encode_utf8(s).len() as int) % two_pow_32()) as u32
}

/// The reference under which the host publishes a payload copied to `ptr`.
pub open spec fn published_ref(ptr: i32, s: Seq<char>) -> StrRef {
    StrRef { ptr: bits_32(ptr as int) as u32, len: payload_len(s) }
}

/// `s` with an error case written from `base` on: variant 0, then the
/// description's pointer and length.
pub closed spec fn put_error(s: Seq<u8>, base: int, ptr: i32, description: Seq<char>) -> Seq<u8> {
    put_u32(put_i32(s.update(base, 0u8), base + 4, ptr), base + 8, payload_len(description))
}

/// Reading back a stored error case gives its variant and reference; the
/// bytes outside `base .. base + 12` stay.
pub proof fn lemma_put_error(s: Seq<u8>, base: int, ptr: i32, description: Seq<char>)
    requires
        0 <= base,
        base + 12 <= s.len(),
    ensures
        put_error(s, base, ptr, description).len() == s.len(),
        put_error(s, base, ptr, description)[base] == 0,
        str_ref_at(put_error(s, base, ptr, description), base + 4) == published_ref(ptr, description),
        i32_at(put_error(s, base, ptr, description), base + 4) == ptr,
        u32_at(put_error(s, base, ptr, description), base + 8) == payload_len(description),
        forall|i: int|
            0 <= i < s.len() && (i < base || base + 12 <= i || base < i < base + 4) ==> #[trigger] put_error(
                s,
                base,
                ptr,
                description,
            )[i] == s[i],
{
    let s0 = s.update(base, 0u8);
    let s1 = put_i32(s0, base + 4, ptr);
    let s2 = put_u32(s1, base + 8, payload_len(description));
    lemma_put_i32(s0, base + 4, ptr);
    lemma_put_u32(s1, base + 8, payload_len(description));
    assert(u32_le(s2, base + 4) == u32_le(s1, base + 4)) by {
        assert(s2[base + 4] == s1[base + 4]);
        assert(s2[base + 5] == s1[base + 5]);
        assert(s2[base + 6] == s1[base + 6]);
        assert(s2[base + 7] == s1[base + 7]);
    }
    assert(s2[base] == s1[base]);
    assert(i32_le(s2, base + 4) == i32_le(s1, base + 4));
}

/// Reads the byte at `off`.
pub fn load_u8(s: &[u8], off: usize) -> (r: u8)
    requires
        off < s@.len(),
    ensures
        r == s@[off as int],
{
    s[off]
}

/// Reads the little-endian `u16` at `off`.
pub fn load_u16(s: &[u8], off: usize) -> (r: u16)
    requires
        off + 2 <= s@.len(),
    ensures
        r as int == u16_le(s@, off as int),
{
    s[off] as u16 + 256 * (s[off + 1] as u16)
}

/// Reads the little-endian `u32` at `off`.
pub fn load_u32(s: &[u8], off: usize) -> (r: u32)
    requires
        off + 4 <= s@.len(),
    ensures
        r as int == u32_le(s@, off as int),
{
    // Asking for the length brings in that it fits a `usize`, so the offsets below do not overflow.
    let _len = s.len();
    let lo = load_u16(s, off);
    let hi = load_u16(s, off + 2);
    lo as u32 + 0x1_0000 * (hi as u32)
}

/// Reads the little-endian `u64` at `off`.
pub fn load_u64(s: &[u8], off: usize) -> (r: u64)
    requires
        off + 8 <= s@.len(),
    ensures
        r as int == u64_le(s@, off as int),
{
    // Asking for the length brings in that it fits a `usize`, so the offsets below do not overflow.
    let _len = s.len();
    let lo = load_u32(s, off);
    let hi = load_u32(s, off + 4);
    assert(hi as int * 0x1_0000_0000 <= 0xffff_ffff * 0x1_0000_0000) by (nonlinear_arith)
        requires
            hi <= 0xffff_ffff,
    ;
    lo as u64 + 0x1_0000_0000 * (hi as u64)
}

/// Reads the little-endian two's-complement `i32` at `off`.
pub fn load_i32(s: &[u8], off: usize) -> (r: i32)
    requires
        off + 4 <= s@.len(),
    ensures
        r as int == i32_le(s@, off as int),
{
    let u = load_u32(s, off);
    if u < 0x8000_0000 {
        u as i32
    } else {
        ((u - 0x8000_0000) as i32) + i32::MIN
    }
}

/// Writes `v` at `off`.
pub fn store_u8(a: &mut Vec<u8>, off: usize, v: u8)
    requires
        off < old(a)@.len(),
    ensures
        final(a)@ == old(a)@.update(off as int, v),
{
    a.set(off, v);
}

/// Writes `v` little-endian at `off`.
pub fn store_u16(a: &mut Vec<u8>, off: usize, v: u16)
    requires
        off + 2 <= old(a)@.len(),
    ensures
        final(a)@ == put_u16(old(a)@, off as int, v),
        final(a)@.len() == old(a)@.len(),
{
    // Asking for the length brings in that it fits a `usize`, so the offsets below do not overflow.
    let _len = a.len();
    a.set(off, (v % 256) as u8);
    a.set(off + 1, (v / 256) as u8);
}

/// Writes `v` little-endian at `off`.
pub fn store_u32(a: &mut Vec<u8>, off: usize, v: u32)
    requires
        off + 4 <= old(a)@.len(),
    ensures
        final(a)@ == put_u32(old(a)@, off as int, v),
        final(a)@.len() == old(a)@.len(),
{
    // Asking for the length brings in that it fits a `usize`, so the offsets below do not overflow.
    let _len = a.len();
    store_u16(a, off, (v % 0x1_0000) as u16);
    store_u16(a, off + 2, (v / 0x1_0000) as u16);
}

/// Writes `v` little-endian at `off`.
pub fn store_u64(a: &mut Vec<u8>, off: usize, v: u64)
    requires
        off + 8 <= old(a)@.len(),
    ensures
        final(a)@ == put_u64(old(a)@, off as int, v),
        final(a)@.len() == old(a)@.len(),
{
    // Asking for the length brings in that it fits a `usize`, so the offsets below do not overflow.
    let _len = a.len();
    store_u32(a, off, (v % 0x1_0000_0000) as u32);
    store_u32(a, off + 4, (v / 0x1_0000_0000) as u32);
}

/// Writes the two's complement of `v` little-endian at `off`.
pub fn store_i32(a: &mut Vec<u8>, off: usize, v: i32)
    requires
        off + 4 <= old(a)@.len(),
    ensures
        final(a)@ == put_i32(old(a)@, off as int, v),
        final(a)@.len() == old(a)@.len(),
{
    let u: u32 = if v >= 0 {
        v as u32
    } else {
        ((v - i32::MIN) as u32) + 0x8000_0000
    };
    store_u32(a, off, u);
}

/// Reads the string reference stored at `off`.
pub fn load_str_ref(s: &[u8], off: usize) -> (r: StrRef)
    requires
        off + 8 <= s@.len(),
    ensures
        r == str_ref_at(s@, off as int),
{
    // Asking for the length brings in that it fits a `usize`, so the offsets below do not overflow.
    let _len = s.len();
    StrRef { ptr: load_u32(s, off), len: load_u32(s, off + 4) }
}

/// Writes an error case from `base` on (see `put_error`).
pub fn store_error(a: &mut Vec<u8>, base: usize, ptr: i32, description: &String)
    requires
        base + 12 <= old(a)@.len(),
    ensures
        final(a)@ == put_error(old(a)@, base as int, ptr, description@),
        final(a)@.len() == old(a)@.len(),
{
    // Asking for the length brings in that it fits a `usize`, so the offsets below do not overflow.
    let _len = a.len();
    store_u8(a, base, 0);
    store_i32(a, base + 4, ptr);
    store_u32(a, base + 8, payload_len_32(description));
}

/// Decodes a payload known to be valid UTF-8.
pub fn decode_payload(bytes: Vec<u8>) -> (r: String)
    requires
        valid_utf8(bytes@),
    ensures
        r@ == decode_utf8(bytes@),
{
    match string_from_utf8(bytes) {
        Some(s) => s,
        None => String::new(),
    }
}

/// Checks that there are `expected` payloads and that each is valid UTF-8.
pub fn check_payloads(payloads: &Vec<Vec<u8>>, expected: usize) -> (r: Result<(), AbiError>)
    ensures
        r is Ok <==> payloads@.len() == expected && forall|i: int|
            0 <= i < payloads@.len() ==> valid_utf8(#[trigger] payloads@[i]@),
        r == Err::<(), AbiError>(AbiError::PayloadCount) <==> payloads@.len() != expected,
        r is Err ==> r == Err::<(), AbiError>(AbiError::PayloadCount) || r == Err::<(), AbiError>(
            AbiError::InvalidUtf8,
        ),
{
    if payloads.len() != expected {
        return Err(AbiError::PayloadCount);
    }
    let mut i: usize = 0;
    while i < payloads.len()
        invariant
            i <= payloads@.len(),
            payloads@.len() == expected,
            forall|j: int| 0 <= j < i ==> valid_utf8(#[trigger] payloads@[j]@),
        decreases payloads@.len() - i,
    {
        if !is_valid_utf8(&payloads[i]) {
            return Err(AbiError::InvalidUtf8);
        }
        i = i + 1;
    }
    Ok(())
}

/// A string's payload: its UTF-8 bytes, as the host copies them into guest memory.
pub fn utf8_payload(s: &String) -> (r: Vec<u8>)
    ensures
        r@ == encode_utf8(s@),
{
    slice_to_vec(s.as_str().as_bytes())
}

/// The length of a string's payload, wrapped to 32 bits as the ABI stores it.
pub fn payload_len_32(s: &String) -> (r: u32)
    ensures
        r == payload_len(s@),
{
    let n: usize = s.as_str().as_bytes().len();
    ((n as u64) % 0x1_0000_0000) as u32
}

/// Turns UTF-8 bytes into a `String` (std's `String::from_utf8`).
/// Claimed: it succeeds exactly on valid UTF-8 and the string holds the
/// decoded characters; on other bytes it gives nothing back.
#[verifier::external_body]
pub(crate) fn string_from_utf8(bytes: Vec<u8>) -> (r: Option<String>)
    ensures
        r is Some <==> valid_utf8(bytes@),
        r matches Some(s) ==> s@ == decode_utf8(bytes@),
{
    String::from_utf8(bytes).ok()
}

/// Whether `bytes` is valid UTF-8 (via `string_from_utf8`).
pub fn is_valid_utf8(bytes: &Vec<u8>) -> (r: bool)
    ensures
        r == valid_utf8(bytes@),
{
    string_from_utf8(bytes.clone()).is_some()
}

} // verus!
