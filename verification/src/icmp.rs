//! The `icmp` interface: ping results and their canonical-ABI layout, lifted
//! by the guest and lowered by the host.
//!
//! A `result<icmp-ping-result, error>` return area is 48 bytes:
//! byte 0 is the tag (0 = ok, 1 = err). For ok: source ip at 8 (pointer) and
//! 12 (length), destination ip at 16 and 20, icmp code at 24, identifier at
//! 26, sequence number at 28, ttl at 30, packet size at 32 and duration in
//! microseconds at 40. For err: the variant byte at 8 (0 = error with
//! description) and the description at 12 and 16.
use crate::abi::{
    bits_32, byte_views, check_payloads, lemma_put_error, lemma_put_i32, lemma_put_u16,
    lemma_put_u32, lemma_put_u64, published_ref, i32_at, u32_at, u16_le, u32_le, u64_le, decode_payload, load_str_ref, load_u16, load_u64, load_u8, payload_len,
    payload_len_32, put_error, put_i32, put_u16, put_u32, put_u64, store_error, store_i32,
    store_u16, store_u32, store_u64, store_u8, str_ref_at, u16_at, u64_at, utf8_payload, AbiError,
    LiftError, StrRef,
};
use vstd::prelude::*;
use vstd::utf8::{decode_utf8, encode_utf8, encode_utf8_decode_utf8, encode_utf8_valid_utf8, valid_utf8};

verus! {

/// Size of the return area of `ping` and `ping-with-options`.
pub const PING_RESULT_SIZE: usize = 48;

/// Errors of the `icmp` interface.
#[derive(Clone, Debug, PartialEq, Eq)]
pub enum Error {
    ErrorWithDescription(String),
}

impl View for Error {
    type V = Seq<char>;

    /// The description.
    open spec fn view(&self) -> Seq<char> {
        match self {
            Error::ErrorWithDescription(d) => d@,
        }
    }
}

/// The answer to one echo request.
#[derive(Clone, Debug, PartialEq, Eq)]
pub struct IcmpPingResult {
    pub src_ip: String,
    pub dst_ip: String,
    pub icmp_code: u8,
    pub identifier: u16,
    pub seq: u16,
    pub ttl: u8,
    pub packet_size: u64,
    pub duration_in_microseconds: u64,
}

/// Mathematical model of an `IcmpPingResult`.
pub struct IcmpPingResultView {
    pub src_ip: Seq<char>,
    pub dst_ip: Seq<char>,
    pub icmp_code: u8,
    pub identifier: u16,
    pub seq: u16,
    pub ttl: u8,
    pub packet_size: u64,
    pub duration_in_microseconds: u64,
}

impl View for IcmpPingResult {
    type V = IcmpPingResultView;

    open spec fn view(&self) -> IcmpPingResultView {
        IcmpPingResultView {
            src_ip: self.src_ip@,
            dst_ip: self.dst_ip@,
            icmp_code: self.icmp_code,
            identifier: self.identifier,
            seq: self.seq,
            ttl: self.ttl,
            packet_size: self.packet_size,
            duration_in_microseconds: self.duration_in_microseconds,
        }
    }
}

/// Model of the outcome of a ping.
pub open spec fn ping_outcome(r: Result<IcmpPingResult, Error>) -> Result<IcmpPingResultView, Seq<char>> {
    match r {
        Ok(p) => Ok(p@),
        Err(e) => Err(e@),
    }
}

// ---------------------------------------------------------------------------
// Guest side: lifting a return area.

/// The area has the right size and its tag and variant bytes name known cases.
pub open spec fn ping_area_valid(area: Seq<u8>) -> bool {
    &&& area.len() == PING_RESULT_SIZE
    &&& (area[0] == 0 || (area[0] == 1 && area[8] == 0))
}

/// The strings a valid area refers to, in the order their payloads are expected.
pub open spec fn ping_area_refs(area: Seq<u8>) -> Seq<StrRef> {
    if area[0] == 0 {
        seq![str_ref_at(area, 8), str_ref_at(area, 16)]
    } else {
        seq![str_ref_at(area, 12)]
    }
}

/// The outcome that a valid area and the payloads of its strings denote.
pub open spec fn lifted_ping(area: Seq<u8>, payloads: Seq<Seq<u8>>) -> Result<IcmpPingResultView, Seq<char>> {
    if area[0] == 0 {
        Ok(
            IcmpPingResultView {
                src_ip: decode_utf8(payloads[0]),
                dst_ip: decode_utf8(payloads[1]),
                icmp_code: area[24],
                identifier: u16_at(area, 26),
                seq: u16_at(area, 28),
                ttl: area[30],
                packet_size: u64_at(area, 32),
                duration_in_microseconds: u64_at(area, 40),
            },
        )
    } else {
        Err(decode_utf8(payloads[0]))
    }
}

/// Checks the size, tag and variant of a ping return area.
pub fn check_ping_area(area: &[u8]) -> (r: Result<(), AbiError>)
    ensures
        r is Ok <==> ping_area_valid(area@),
        r == Err::<(), AbiError>(AbiError::AreaSize) <==> area@.len() != PING_RESULT_SIZE,
        r is Err ==> r == Err::<(), AbiError>(AbiError::AreaSize) || r == Err::<(), AbiError>(
            AbiError::InvalidDiscriminant,
        ),
{
    if area.len() != PING_RESULT_SIZE {
        return Err(AbiError::AreaSize);
    }
    let tag = load_u8(area, 0);
    if tag == 0 || (tag == 1 && load_u8(area, 8) == 0) {
        Ok(())
    } else {
        Err(AbiError::InvalidDiscriminant)
    }
}

/// The strings that a valid ping return area refers to.
pub fn ping_string_refs(area: &[u8]) -> (r: Vec<StrRef>)
    requires
        ping_area_valid(area@),
    ensures
        r@ == ping_area_refs(area@),
{
    if load_u8(area, 0) == 0 {
        let mut r = Vec::new();
        r.push(load_str_ref(area, 8));
        r.push(load_str_ref(area, 16));
        r
    } else {
        let mut r = Vec::new();
        r.push(load_str_ref(area, 12));
        r
    }
}

/// Lifts a ping outcome from its return area and the payloads of the strings
/// it refers to (fetched from guest memory, in the order of `ping_string_refs`).
pub fn lift_ping_result(area: &[u8], payloads: Vec<Vec<u8>>) -> (r: Result<IcmpPingResult, Error>)
    requires
        ping_area_valid(area@),
        payloads@.len() == ping_area_refs(area@).len(),
        forall|i: int| 0 <= i < payloads@.len() ==> valid_utf8(#[trigger] payloads@[i]@),
    ensures
        ping_outcome(r) == lifted_ping(area@, byte_views(payloads@)),
{
    let ghost views = byte_views(payloads@);
    let mut payloads = payloads;
    if load_u8(area, 0) == 0 {
        let dst = payloads.pop().unwrap();
        let src = payloads.pop().unwrap();
        assert(src@ == views[0] && dst@ == views[1]);
        Ok(
            IcmpPingResult {
                src_ip: decode_payload(src),
                dst_ip: decode_payload(dst),
                icmp_code: load_u8(area, 24),
                identifier: load_u16(area, 26),
                seq: load_u16(area, 28),
                ttl: load_u8(area, 30),
                packet_size: load_u64(area, 32),
                duration_in_microseconds: load_u64(area, 40),
            },
        )
    } else {
        let description = payloads.pop().unwrap();
        assert(description@ == views[0]);
        Err(Error::ErrorWithDescription(decode_payload(description)))
    }
}

// ---------------------------------------------------------------------------
// Guest side: lowering the arguments of `ping-with-options`.

/// The `i32` core arguments that `identifier`, `ttl` and `seq` lower to.
pub open spec fn lowered_ping_options(identifier: u16, ttl: u8, seq: u16) -> (i32, i32, i32) {
    (identifier as i32, ttl as i32, seq as i32)
}

/// Lowers `identifier`, `ttl` and `seq` to the `i32` core arguments of
/// `ping-with-options`, in that order (each keeps its value).
pub fn lower_ping_options(identifier: u16, ttl: u8, seq: u16) -> (r: (i32, i32, i32))
    ensures
        r == lowered_ping_options(identifier, ttl, seq),
        r.0 == identifier as int && r.1 == ttl as int && r.2 == seq as int,
{
    (identifier as i32, ttl as i32, seq as i32)
}

// ---------------------------------------------------------------------------
// Host side: lifting the arguments of `ping-with-options`.

/// What the host makes of the core arguments of `ping-with-options`: each
/// must fit its parameter's type, else `BadInt`.
pub open spec fn lifted_ping_options(identifier: i32, ttl: i32, seq: i32) -> Result<(u16, u8, u16), LiftError> {
    if 0 <= identifier <= u16::MAX && 0 <= ttl <= u8::MAX && 0 <= seq <= u16::MAX {
        Ok((identifier as u16, ttl as u8, seq as u16))
    } else {
        Err(LiftError::BadInt)
    }
}

/// Lifts the `i32` core arguments of `ping-with-options` back to
/// `(identifier, ttl, seq)`.
pub fn lift_ping_options(identifier: i32, ttl: i32, seq: i32) -> (r: Result<(u16, u8, u16), LiftError>)
    ensures
        r == lifted_ping_options(identifier, ttl, seq),
{
    if identifier < 0 || identifier > 0xffff {
        return Err(LiftError::BadInt);
    }
    if ttl < 0 || ttl > 0xff {
        return Err(LiftError::BadInt);
    }
    if seq < 0 || seq > 0xffff {
        return Err(LiftError::BadInt);
    }
    Ok((identifier as u16, ttl as u8, seq as u16))
}

/// Each option travels as its own value in an `i32`; the host takes an
/// argument exactly when it fits the option's type, and then keeps its value.
pub proof fn lemma_ping_options_values(identifier: u16, ttl: u8, seq: u16, a: i32, b: i32, c: i32)
    ensures
        lowered_ping_options(identifier, ttl, seq).0 as int == identifier as int,
        lowered_ping_options(identifier, ttl, seq).1 as int == ttl as int,
        lowered_ping_options(identifier, ttl, seq).2 as int == seq as int,
        lifted_ping_options(a, b, c) is Ok <==> (0 <= a < 0x1_0000 && 0 <= b < 0x100 && 0 <= c
            < 0x1_0000),
        lifted_ping_options(a, b, c) matches Ok(t) ==> t.0 as int == a as int && t.1 as int == b as int
            && t.2 as int == c as int,
        lifted_ping_options(a, b, c) is Err ==> lifted_ping_options(a, b, c) == Err::<
            (u16, u8, u16),
            LiftError,
        >(LiftError::BadInt),
{
}

/// The options of `ping-with-options` reach the host as the guest passed them.
pub proof fn lemma_ping_options_lift_lower(identifier: u16, ttl: u8, seq: u16)
    ensures
        ({
            let (a, b, c) = lowered_ping_options(identifier, ttl, seq);
            lifted_ping_options(a, b, c) == Ok::<(u16, u8, u16), LiftError>((identifier, ttl, seq))
        }),
{
}

// ---------------------------------------------------------------------------
// Host side: lowering a ping outcome.

/// The payloads the host copies into guest memory for an outcome, in order.
pub open spec fn ping_payloads(v: Result<IcmpPingResultView, Seq<char>>) -> Seq<Seq<u8>> {
    match v {
        Ok(p) => seq![encode_utf8(p.src_ip), encode_utf8(p.dst_ip)],
        Err(d) => seq![encode_utf8(d)],
    }
}

/// The return area after the host lowers `v`, its payloads having been
/// copied to `ptrs` (one pointer per payload, in order).
pub open spec fn lowered_ping_area(area: Seq<u8>, v: Result<IcmpPingResultView, Seq<char>>, ptrs: Seq<i32>) -> Seq<u8> {
    match v {
        Ok(p) => {
            let a0 = area.update(0, 0u8);
            let a1 = put_i32(a0, 8, ptrs[0]);
            let a2 = put_u32(a1, 12, payload_len(p.src_ip));
            let a3 = put_i32(a2, 16, ptrs[1]);
            let a4 = put_u32(a3, 20, payload_len(p.dst_ip));
            let a5 = a4.update(24, p.icmp_code);
            let a6 = put_u16(a5, 26, p.identifier);
            let a7 = put_u16(a6, 28, p.seq);
            let a8 = a7.update(30, p.ttl);
            let a9 = put_u64(a8, 32, p.packet_size);
            put_u64(a9, 40, p.duration_in_microseconds)
        },
        Err(d) => put_error(area.update(0, 1u8), 8, ptrs[0], d),
    }
}

/// The strings an outcome carries, in payload order.
pub open spec fn ping_strings(v: Result<IcmpPingResultView, Seq<char>>) -> Seq<Seq<char>> {
    match v {
        Ok(p) => seq![p.src_ip, p.dst_ip],
        Err(d) => seq![d],
    }
}

/// The references under which the host publishes the strings of `v`,
/// copied to `ptrs`.
pub open spec fn ping_published_refs(v: Result<IcmpPingResultView, Seq<char>>, ptrs: Seq<i32>) -> Seq<StrRef> {
    Seq::new(ping_strings(v).len(), |i: int| published_ref(ptrs[i], ping_strings(v)[i]))
}

/// What the host lowers into a ping return area (its payloads copied to
/// `ptrs`), the guest accepts, locates at `ptrs`, and lifts back unchanged.
pub proof fn lemma_ping_lift_lower(area: Seq<u8>, v: Result<IcmpPingResultView, Seq<char>>, ptrs: Seq<i32>)
    requires
        area.len() == PING_RESULT_SIZE,
        ptrs.len() == ping_payloads(v).len(),
    ensures
        ping_area_valid(lowered_ping_area(area, v, ptrs)),
        ping_area_refs(lowered_ping_area(area, v, ptrs)) == ping_published_refs(v, ptrs),
        forall|i: int| 0 <= i < ping_payloads(v).len() ==> valid_utf8(#[trigger] ping_payloads(v)[i]),
        lifted_ping(lowered_ping_area(area, v, ptrs), ping_payloads(v)) == v,
{
    broadcast use encode_utf8_valid_utf8, encode_utf8_decode_utf8;

    match v {
        Ok(p) => {
            let a0 = area.update(0, 0u8);
            let a1 = put_i32(a0, 8, ptrs[0]);
            let a2 = put_u32(a1, 12, payload_len(p.src_ip));
            let a3 = put_i32(a2, 16, ptrs[1]);
            let a4 = put_u32(a3, 20, payload_len(p.dst_ip));
            let a5 = a4.update(24, p.icmp_code);
            let a6 = put_u16(a5, 26, p.identifier);
            let a7 = put_u16(a6, 28, p.seq);
            let a8 = a7.update(30, p.ttl);
            let a9 = put_u64(a8, 32, p.packet_size);
            let a10 = put_u64(a9, 40, p.duration_in_microseconds);
            lemma_put_i32(a0, 8, ptrs[0]);
            lemma_put_u32(a1, 12, payload_len(p.src_ip));
            lemma_put_i32(a2, 16, ptrs[1]);
            lemma_put_u32(a3, 20, payload_len(p.dst_ip));
            lemma_put_u16(a5, 26, p.identifier);
            lemma_put_u16(a6, 28, p.seq);
            lemma_put_u64(a8, 32, p.packet_size);
            lemma_put_u64(a9, 40, p.duration_in_microseconds);
            assert(a10 == lowered_ping_area(area, v, ptrs));
            assert(a10[0] == 0);
            assert(a10[24] == p.icmp_code);
            assert(a10[30] == p.ttl);
            assert forall|k: int| 8 <= k < 16 implies #[trigger] a10[k] == a2[k] by {}
            assert forall|k: int| 16 <= k < 24 implies #[trigger] a10[k] == a4[k] by {}
            assert(u32_le(a10, 8) == u32_le(a2, 8));
            assert(u32_le(a10, 12) == u32_le(a2, 12));
            assert(u32_le(a10, 16) == u32_le(a4, 16));
            assert(u32_le(a10, 20) == u32_le(a4, 20));
            assert(u32_le(a2, 8) == u32_le(a1, 8)) by {
                assert forall|k: int| 8 <= k < 12 implies #[trigger] a2[k] == a1[k] by {}
            }
            assert(u32_le(a4, 16) == u32_le(a3, 16)) by {
                assert forall|k: int| 16 <= k < 20 implies #[trigger] a4[k] == a3[k] by {}
            }
            assert(u16_le(a10, 26) == u16_le(a6, 26)) by {
                assert forall|k: int| 26 <= k < 28 implies #[trigger] a10[k] == a6[k] by {}
            }
            assert(u16_le(a10, 28) == u16_le(a7, 28)) by {
                assert forall|k: int| 28 <= k < 30 implies #[trigger] a10[k] == a7[k] by {}
            }
            assert(u64_le(a10, 32) == u64_le(a9, 32)) by {
                assert forall|k: int| 32 <= k < 40 implies #[trigger] a10[k] == a9[k] by {}
            }
            assert(ping_area_refs(a10) =~= ping_published_refs(v, ptrs));
            assert(lifted_ping(a10, ping_payloads(v)) == v);
        },
        Err(d) => {
            let a0 = area.update(0, 1u8);
            lemma_put_error(a0, 8, ptrs[0], d);
            assert(ping_area_refs(lowered_ping_area(area, v, ptrs)) =~= ping_published_refs(v, ptrs));
        },
    }
}

/// The guest accepts a ping return area exactly when it has 48 bytes and
/// either its tag is 0 (ok) or its tag is 1 (err) with variant byte 0; every
/// other tag or variant is refused.
pub proof fn lemma_ping_area_acceptance(area: Seq<u8>)
    ensures
        ping_area_valid(area) <==> area.len() == 48 && (area[0] == 0 || (area[0] == 1 && area[8] == 0)),
{
}

/// Where the guest reads each part of a ping outcome: for ok (tag 0) the
/// source ip is the first payload and the destination ip the second, the
/// icmp code is byte 24, the identifier the little-endian bytes 26-27, the
/// sequence number 28-29, the ttl byte 30, the packet size bytes 32-39 and
/// the duration bytes 40-47; the source and destination references are the
/// pointer/length pairs at 8/12 and 16/20. For err (tag 1) the description
/// is the only payload, referenced by the pair at 12/16.
pub proof fn lemma_lift_ping_layout(area: Seq<u8>, payloads: Seq<Seq<u8>>)
    requires
        ping_area_valid(area),
    ensures
        area[0] == 0 ==> (lifted_ping(area, payloads) matches Ok(p) && {
            &&& p.src_ip == decode_utf8(payloads[0])
            &&& p.dst_ip == decode_utf8(payloads[1])
            &&& p.icmp_code == area[24]
            &&& p.identifier == u16_at(area, 26)
            &&& p.seq == u16_at(area, 28)
            &&& p.ttl == area[30]
            &&& p.packet_size == u64_at(area, 32)
            &&& p.duration_in_microseconds == u64_at(area, 40)
        }),
        area[0] == 0 ==> ping_area_refs(area) == seq![
            StrRef { ptr: u32_at(area, 8), len: u32_at(area, 12) },
            StrRef { ptr: u32_at(area, 16), len: u32_at(area, 20) },
        ],
        area[0] == 1 ==> lifted_ping(area, payloads) == Err::<IcmpPingResultView, Seq<char>>(
            decode_utf8(payloads[0]),
        ),
        area[0] == 1 ==> ping_area_refs(area) == seq![StrRef { ptr: u32_at(area, 12), len: u32_at(area, 16) }],
{
}

/// Where the host writes each part of a ping outcome. For ok: tag 0, the
/// icmp code verbatim at byte 24, the identifier, sequence number, packet
/// size and duration little-endian at 26, 28, 32 and 40, the ttl at 30, the
/// source ip's pointer and byte length at 8 and 12 and the destination ip's
/// at 16 and 20; the padding bytes 1-7, 25 and 31 stay as they were. For err:
/// tag 1, variant 0 at 8, the description's pointer and byte length at 12
/// and 16; every other byte stays as it was.
pub proof fn lemma_lower_ping_layout(area: Seq<u8>, v: Result<IcmpPingResultView, Seq<char>>, ptrs: Seq<i32>)
    requires
        area.len() == PING_RESULT_SIZE,
        ptrs.len() == ping_payloads(v).len(),
    ensures
        lowered_ping_area(area, v, ptrs).len() == PING_RESULT_SIZE,
        v matches Ok(p) ==> ({
            let a = lowered_ping_area(area, v, ptrs);
            &&& a[0] == 0
            &&& a[24] == p.icmp_code
            &&& u16_at(a, 26) == p.identifier
            &&& u16_at(a, 28) == p.seq
            &&& a[30] == p.ttl
            &&& u64_at(a, 32) == p.packet_size
            &&& u64_at(a, 40) == p.duration_in_microseconds
            &&& i32_at(a, 8) == ptrs[0]
            &&& u32_at(a, 12) == payload_len(p.src_ip)
            &&& i32_at(a, 16) == ptrs[1]
            &&& u32_at(a, 20) == payload_len(p.dst_ip)
            &&& forall|i: int| 1 <= i < 8 ==> #[trigger] a[i] == area[i]
            &&& a[25] == area[25]
            &&& a[31] == area[31]
        }),
        v matches Err(d) ==> ({
            let a = lowered_ping_area(area, v, ptrs);
            &&& a[0] == 1
            &&& a[8] == 0
            &&& i32_at(a, 12) == ptrs[0]
            &&& u32_at(a, 16) == payload_len(d)
            &&& forall|i: int|
                0 < i < PING_RESULT_SIZE && i != 8 && !(12 <= i < 20) ==> #[trigger] a[i] == area[i]
        }),
{
    match v {
        Ok(p) => {
            let a0 = area.update(0, 0u8);
            let a1 = put_i32(a0, 8, ptrs[0]);
            let a2 = put_u32(a1, 12, payload_len(p.src_ip));
            let a3 = put_i32(a2, 16, ptrs[1]);
            let a4 = put_u32(a3, 20, payload_len(p.dst_ip));
            let a5 = a4.update(24, p.icmp_code);
            let a6 = put_u16(a5, 26, p.identifier);
            let a7 = put_u16(a6, 28, p.seq);
            let a8 = a7.update(30, p.ttl);
            let a9 = put_u64(a8, 32, p.packet_size);
            let a10 = put_u64(a9, 40, p.duration_in_microseconds);
            lemma_put_i32(a0, 8, ptrs[0]);
            lemma_put_u32(a1, 12, payload_len(p.src_ip));
            lemma_put_i32(a2, 16, ptrs[1]);
            lemma_put_u32(a3, 20, payload_len(p.dst_ip));
            lemma_put_u16(a5, 26, p.identifier);
            lemma_put_u16(a6, 28, p.seq);
            lemma_put_u64(a8, 32, p.packet_size);
            lemma_put_u64(a9, 40, p.duration_in_microseconds);
            assert(a10 == lowered_ping_area(area, v, ptrs));
            assert(a10[0] == 0);
            assert(a10[24] == p.icmp_code);
            assert(a10[30] == p.ttl);
            assert(a10[25] == area[25]);
            assert(a10[31] == area[31]);
            assert forall|i: int| 1 <= i < 8 implies #[trigger] a10[i] == area[i] by {}
            assert forall|k: int| 8 <= k < 16 implies #[trigger] a10[k] == a2[k] by {}
            assert forall|k: int| 16 <= k < 24 implies #[trigger] a10[k] == a4[k] by {}
            assert(u32_le(a10, 8) == u32_le(a2, 8));
            assert(u32_le(a10, 12) == u32_le(a2, 12));
            assert(u32_le(a10, 16) == u32_le(a4, 16));
            assert(u32_le(a10, 20) == u32_le(a4, 20));
            assert(u32_le(a2, 8) == u32_le(a1, 8)) by {
                assert forall|k: int| 8 <= k < 12 implies #[trigger] a2[k] == a1[k] by {}
            }
            assert(u32_le(a4, 16) == u32_le(a3, 16)) by {
                assert forall|k: int| 16 <= k < 20 implies #[trigger] a4[k] == a3[k] by {}
            }
            assert(u16_le(a10, 26) == u16_le(a6, 26)) by {
                assert forall|k: int| 26 <= k < 28 implies #[trigger] a10[k] == a6[k] by {}
            }
            assert(u16_le(a10, 28) == u16_le(a7, 28)) by {
                assert forall|k: int| 28 <= k < 30 implies #[trigger] a10[k] == a7[k] by {}
            }
            assert(u64_le(a10, 32) == u64_le(a9, 32)) by {
                assert forall|k: int| 32 <= k < 40 implies #[trigger] a10[k] == a9[k] by {}
            }
        },
        Err(d) => {
            let a0 = area.update(0, 1u8);
            let a = put_error(a0, 8, ptrs[0], d);
            lemma_put_error(a0, 8, ptrs[0], d);
            assert(a == lowered_ping_area(area, v, ptrs));
        },
    }
}

/// The payloads the host copies into guest memory for `r`, in order.
pub fn ping_result_payloads(r: &Result<IcmpPingResult, Error>) -> (p: Vec<Vec<u8>>)
    ensures
        byte_views(p@) == ping_payloads(ping_outcome(*r)),
{
    let mut p = Vec::new();
    match r {
        Ok(v) => {
            p.push(utf8_payload(&v.src_ip));
            p.push(utf8_payload(&v.dst_ip));
        },
        Err(Error::ErrorWithDescription(d)) => {
            p.push(utf8_payload(d));
        },
    }
    assert(byte_views(p@) =~= ping_payloads(ping_outcome(*r)));
    p
}

/// Lowers `r` into its return area; `ptrs` are where its payloads
/// (`ping_result_payloads`) were copied in guest memory.
pub fn lower_ping_result(area: &mut Vec<u8>, r: &Result<IcmpPingResult, Error>, ptrs: &[i32])
    requires
        old(area)@.len() == PING_RESULT_SIZE,
        ptrs@.len() == ping_payloads(ping_outcome(*r)).len(),
    ensures
        final(area)@ == lowered_ping_area(old(area)@, ping_outcome(*r), ptrs@),
{
    match r {
        Ok(v) => {
            store_u8(area, 0, 0);
            store_i32(area, 8, ptrs[0]);
            store_u32(area, 12, payload_len_32(&v.src_ip));
            store_i32(area, 16, ptrs[1]);
            store_u32(area, 20, payload_len_32(&v.dst_ip));
            store_u8(area, 24, v.icmp_code);
            store_u16(area, 26, v.identifier);
            store_u16(area, 28, v.seq);
            store_u8(area, 30, v.ttl);
            store_u64(area, 32, v.packet_size);
            store_u64(area, 40, v.duration_in_microseconds);
        },
        Err(Error::ErrorWithDescription(d)) => {
            store_u8(area, 0, 1);
            store_error(area, 8, ptrs[0], d);
        },
    }
}

} // verus!
