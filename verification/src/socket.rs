//! The `socket` interface: its options, and the canonical-ABI layout of its
//! results, lifted by the guest and lowered by the host.
//!
//! Every socket result fits a 16-byte return area: byte 0 is the tag
//! (0 = ok, 1 = err). An ok payload starts at 4 (an `i32`/`u32`, a `bool`
//! byte, or a string's pointer at 4 and length at 8). For err: the variant
//! byte at 4 (0 = error with description) and the description at 8 and 12.
use crate::abi::{
    bits_32, byte_views, i32_at, i32_le, lemma_put_u32, u32_le, lemma_put_error, lemma_put_i32, load_i32, load_str_ref, load_u8,
    payload_len, payload_len_32, published_ref, put_error, put_i32, put_u32, signed_32, store_error,
    store_i32, store_u32, store_u8, str_ref_at, decode_payload, utf8_payload, AbiError, LiftError,
    StrRef,
};
use vstd::prelude::*;
use vstd::utf8::{decode_utf8, encode_utf8, encode_utf8_decode_utf8, encode_utf8_valid_utf8, valid_utf8};

verus! {

/// Size of the return area of every socket function.
pub const SOCKET_RESULT_SIZE: usize = 16;

/// A socket handle as the host hands it out.
pub type RawFd = i32;

/// Errors of the `socket` interface.
#[derive(Clone, Debug, PartialEq, Eq)]
pub enum Error {
    ErrorWithDescription(String),
}

impl View for Error {
    type V = Seq<char>;

    /// The description.
    open spec fn view(&self) -> Seq<char> {
        match self {
            Error::ErrorWithDescription(d) => d@,
        }
    }
}

/// Options of `tcp-bind`.
#[derive(Clone, Copy, Debug, PartialEq, Eq)]
pub struct TcpBindOptions {
    pub backlog: u32,
    pub nonblocking: bool,
    pub reuse_address: bool,
}

/// Options of `tcp-connect`.
#[derive(Clone, Debug, PartialEq, Eq)]
pub struct TcpConnectOptions<'a> {
    pub local_endpoint: &'a str,
    pub nonblocking: bool,
    pub connect_timeout_in_ms: u32,
}

/// Which directions of a connection `shutdown` closes.
#[derive(Clone, Copy, Debug, PartialEq, Eq, Structural)]
pub enum ShutdownOption {
    Read,
    Write,
    Both,
}

/// Model of a socket outcome: the ok value, or the error's description.
pub open spec fn socket_outcome<T>(r: Result<T, Error>) -> Result<T, Seq<char>> {
    match r {
        Ok(v) => Ok(v),
        Err(e) => Err(e@),
    }
}

/// Model of an outcome whose ok value is a string.
pub open spec fn string_outcome(r: Result<String, Error>) -> Result<Seq<char>, Seq<char>> {
    match r {
        Ok(s) => Ok(s@),
        Err(e) => Err(e@),
    }
}

// ---------------------------------------------------------------------------
// Guest side: lifting a `result<raw-fd, error>` return area.

/// The area has the right size and its tag and variant bytes name known cases.
pub open spec fn fd_area_valid(area: Seq<u8>) -> bool {
    &&& area.len() == SOCKET_RESULT_SIZE
    &&& (area[0] == 0 || (area[0] == 1 && area[4] == 0))
}

/// The strings a valid area refers to: none for ok, the description for err.
pub open spec fn fd_area_refs(area: Seq<u8>) -> Seq<StrRef> {
    if area[0] == 0 {
        seq![]
    } else {
        seq![str_ref_at(area, 8)]
    }
}

/// The outcome that a valid area and the payloads of its strings denote.
pub open spec fn lifted_fd(area: Seq<u8>, payloads: Seq<Seq<u8>>) -> Result<RawFd, Seq<char>> {
    if area[0] == 0 {
        Ok(i32_at(area, 4))
    } else {
        Err(decode_utf8(payloads[0]))
    }
}

/// Checks the size, tag and variant of a `result<raw-fd, error>` return area.
pub fn check_fd_area(area: &[u8]) -> (r: Result<(), AbiError>)
    ensures
        r is Ok <==> fd_area_valid(area@),
        r == Err::<(), AbiError>(AbiError::AreaSize) <==> area@.len() != SOCKET_RESULT_SIZE,
        r is Err ==> r == Err::<(), AbiError>(AbiError::AreaSize) || r == Err::<(), AbiError>(
            AbiError::InvalidDiscriminant,
        ),
{
    if area.len() != SOCKET_RESULT_SIZE {
        return Err(AbiError::AreaSize);
    }
    let tag = load_u8(area, 0);
    if tag == 0 || (tag == 1 && load_u8(area, 4) == 0) {
        Ok(())
    } else {
        Err(AbiError::InvalidDiscriminant)
    }
}

/// The strings that a valid `result<raw-fd, error>` return area refers to.
pub fn fd_string_refs(area: &[u8]) -> (r: Vec<StrRef>)
    requires
        fd_area_valid(area@),
    ensures
        r@ == fd_area_refs(area@),
{
    let mut r = Vec::new();
    if load_u8(area, 0) != 0 {
        r.push(load_str_ref(area, 8));
    }
    assert(r@ =~= fd_area_refs(area@));
    r
}

/// Lifts a `result<raw-fd, error>` from its return area and the payloads of
/// the strings it refers to (in the order of `fd_string_refs`).
pub fn lift_fd_result(area: &[u8], payloads: Vec<Vec<u8>>) -> (r: Result<RawFd, Error>)
    requires
        fd_area_valid(area@),
        payloads@.len() == fd_area_refs(area@).len(),
        forall|i: int| 0 <= i < payloads@.len() ==> valid_utf8(#[trigger] payloads@[i]@),
    ensures
        socket_outcome(r) == lifted_fd(area@, byte_views(payloads@)),
{
    let ghost views = byte_views(payloads@);
    let mut payloads = payloads;
    if load_u8(area, 0) == 0 {
        Ok(load_i32(area, 4))
    } else {
        let description = payloads.pop().unwrap();
        assert(description@ == views[0]);
        Err(Error::ErrorWithDescription(decode_payload(description)))
    }
}

// ---------------------------------------------------------------------------
// Guest side: lowering a `u32` argument.

/// The `i32` core argument a `u32` lowers to: the same 32 bits.
pub open spec fn lowered_u32(v: u32) -> i32 {
    signed_32(v as int) as i32
}

/// Lowers a `u32` argument (such as a connect timeout) to its `i32` core
/// argument, keeping its bits.
pub fn lower_u32(v: u32) -> (r: i32)
    ensures
        r == lowered_u32(v),
        r as int == signed_32(v as int),
{
    if v < 0x8000_0000 {
        v as i32
    } else {
        ((v - 0x8000_0000) as i32) + i32::MIN
    }
}

// ---------------------------------------------------------------------------
// Host side: lifting arguments.

/// The `u32` whose bits an `i32` core argument carries.
pub open spec fn lifted_u32(x: i32) -> u32 {
    bits_32(x as int) as u32
}

/// The `bool` an `i32` core argument stands for: 0 or 1, else `InvalidBool`.
pub open spec fn lifted_bool(x: i32) -> Result<bool, LiftError> {
    if x == 0 {
        Ok(false)
    } else if x == 1 {
        Ok(true)
    } else {
        Err(LiftError::InvalidBool)
    }
}

/// The `shutdown-option` an `i32` core argument stands for.
pub open spec fn lifted_shutdown_option(x: i32) -> Result<ShutdownOption, LiftError> {
    if x == 0 {
        Ok(ShutdownOption::Read)
    } else if x == 1 {
        Ok(ShutdownOption::Write)
    } else if x == 2 {
        Ok(ShutdownOption::Both)
    } else {
        Err(LiftError::InvalidShutdownOption)
    }
}

/// Lifts a `u32` argument: the bits of the core `i32`.
pub fn lift_u32(x: i32) -> (r: u32)
    ensures
        r == lifted_u32(x),
        r as int == bits_32(x as int),
{
    if x >= 0 {
        x as u32
    } else {
        ((x - i32::MIN) as u32) + 0x8000_0000
    }
}

/// Lifts a `bool` argument.
pub fn lift_bool(x: i32) -> (r: Result<bool, LiftError>)
    ensures
        r == lifted_bool(x),
{
    if x == 0 {
        Ok(false)
    } else if x == 1 {
        Ok(true)
    } else {
        Err(LiftError::InvalidBool)
    }
}

/// Lifts the `shutdown-option` argument of `shutdown`.
pub fn lift_shutdown_option(x: i32) -> (r: Result<ShutdownOption, LiftError>)
    ensures
        r == lifted_shutdown_option(x),
{
    if x == 0 {
        Ok(ShutdownOption::Read)
    } else if x == 1 {
        Ok(ShutdownOption::Write)
    } else if x == 2 {
        Ok(ShutdownOption::Both)
    } else {
        Err(LiftError::InvalidShutdownOption)
    }
}

/// Lifts the options of `tcp-bind` from their core arguments: the backlog's
/// bits, then the two flags (the first flag that is not 0 or 1 is refused).
pub fn lift_tcp_bind_options(backlog: i32, nonblocking: i32, reuse_address: i32) -> (r: Result<
    TcpBindOptions,
    LiftError,
>)
    ensures
        r is Ok <==> lifted_bool(nonblocking) is Ok && lifted_bool(reuse_address) is Ok,
        r matches Ok(o) ==> o.backlog == lifted_u32(backlog) && Ok::<bool, LiftError>(o.nonblocking)
            == lifted_bool(nonblocking) && Ok::<bool, LiftError>(o.reuse_address) == lifted_bool(
            reuse_address,
        ),
        r matches Err(e) ==> e == LiftError::InvalidBool,
{
    let backlog = lift_u32(backlog);
    let nonblocking = lift_bool(nonblocking)?;
    let reuse_address = lift_bool(reuse_address)?;
    Ok(TcpBindOptions { backlog, nonblocking, reuse_address })
}

/// Lifts the options of `tcp-connect`; `local_endpoint` is the string the host
/// read from guest memory, the other two are core arguments.
pub fn lift_tcp_connect_options<'a>(
    local_endpoint: &'a str,
    nonblocking: i32,
    connect_timeout_in_ms: i32,
) -> (r: Result<TcpConnectOptions<'a>, LiftError>)
    ensures
        r is Ok <==> lifted_bool(nonblocking) is Ok,
        r matches Ok(o) ==> o.local_endpoint == local_endpoint && Ok::<bool, LiftError>(
            o.nonblocking,
        ) == lifted_bool(nonblocking) && o.connect_timeout_in_ms == lifted_u32(
            connect_timeout_in_ms,
        ),
        r matches Err(e) ==> e == LiftError::InvalidBool,
{
    let nonblocking = lift_bool(nonblocking)?;
    Ok(
        TcpConnectOptions {
            local_endpoint,
            nonblocking,
            connect_timeout_in_ms: lift_u32(connect_timeout_in_ms),
        },
    )
}

/// How the host reads flag, shutdown and `u32` arguments: a flag is 0
/// (false) or 1 (true), a shutdown option is 0 (read), 1 (write) or 2
/// (both), and anything else is refused; a `u32` is the argument modulo 2^32.
/// A `u32` lowers to the `i32` with the same value modulo 2^32.
pub proof fn lemma_argument_values(x: i32, v: u32)
    ensures
        lifted_bool(x) == Ok::<bool, LiftError>(false) <==> x == 0,
        lifted_bool(x) == Ok::<bool, LiftError>(true) <==> x == 1,
        lifted_bool(x) is Err ==> lifted_bool(x) == Err::<bool, LiftError>(LiftError::InvalidBool),
        lifted_shutdown_option(x) == Ok::<ShutdownOption, LiftError>(ShutdownOption::Read) <==> x == 0,
        lifted_shutdown_option(x) == Ok::<ShutdownOption, LiftError>(ShutdownOption::Write) <==> x == 1,
        lifted_shutdown_option(x) == Ok::<ShutdownOption, LiftError>(ShutdownOption::Both) <==> x == 2,
        lifted_shutdown_option(x) is Err ==> lifted_shutdown_option(x) == Err::<
            ShutdownOption,
            LiftError,
        >(LiftError::InvalidShutdownOption),
        lifted_u32(x) as int == (x as int) % 0x1_0000_0000,
        (lowered_u32(v) as int) % 0x1_0000_0000 == v as int,
{
}

/// The guest accepts a `result<raw-fd, error>` return area exactly when it
/// has 16 bytes and either its tag is 0 (ok) or its tag is 1 (err) with
/// variant byte 0 at 4; every other tag or variant is refused.
pub proof fn lemma_fd_area_acceptance(area: Seq<u8>)
    ensures
        fd_area_valid(area) <==> area.len() == 16 && (area[0] == 0 || (area[0] == 1 && area[4] == 0)),
{
}

/// Where the guest reads a `result<raw-fd, error>`: for ok (tag 0) the
/// handle is the little-endian two's-complement `i32` at bytes 4-7 and no
/// string is referenced; for err (tag 1) the description is the only
/// payload, referenced by the pointer/length pair at 8/12.
pub proof fn lemma_lift_fd_layout(area: Seq<u8>, payloads: Seq<Seq<u8>>)
    requires
        fd_area_valid(area),
    ensures
        area[0] == 0 ==> (lifted_fd(area, payloads) matches Ok(fd) && fd as int == i32_le(area, 4)),
        area[0] == 0 ==> fd_area_refs(area) == Seq::<StrRef>::empty(),
        area[0] == 1 ==> lifted_fd(area, payloads) == Err::<RawFd, Seq<char>>(decode_utf8(payloads[0])),
        area[0] == 1 ==> fd_area_refs(area) == seq![StrRef { ptr: u32_le(area, 8) as u32, len: u32_le(area, 12) as u32 }],
{
}

/// Where the host writes each ok socket result: tag 0, then a handle as a
/// little-endian `i32` at 4, a `u32` at 4, a flag as byte 1 or 0 at 4, a
/// string's pointer at 4 and byte length at 8, or nothing for a unit; every
/// byte it does not write stays as it was.
pub proof fn lemma_lower_socket_ok_layouts(area: Seq<u8>, ptr: i32, fd: i32, x: u32, b: bool, s: Seq<char>)
    requires
        area.len() == SOCKET_RESULT_SIZE,
    ensures
        ({
            let a = lowered_fd_area(area, Ok(fd), ptr);
            &&& a.len() == SOCKET_RESULT_SIZE && a[0] == 0 && i32_le(a, 4) == fd as int
            &&& forall|i: int| 0 < i < SOCKET_RESULT_SIZE && !(4 <= i < 8) ==> #[trigger] a[i] == area[i]
        }),
        ({
            let a = lowered_unit_area(area, Ok(()), ptr);
            &&& a.len() == SOCKET_RESULT_SIZE && a[0] == 0
            &&& forall|i: int| 0 < i < SOCKET_RESULT_SIZE ==> #[trigger] a[i] == area[i]
        }),
        ({
            let a = lowered_u32_area(area, Ok(x), ptr);
            &&& a.len() == SOCKET_RESULT_SIZE && a[0] == 0 && u32_le(a, 4) == x as int
            &&& forall|i: int| 0 < i < SOCKET_RESULT_SIZE && !(4 <= i < 8) ==> #[trigger] a[i] == area[i]
        }),
        ({
            let a = lowered_bool_area(area, Ok(b), ptr);
            &&& a.len() == SOCKET_RESULT_SIZE && a[0] == 0 && a[4] == (if b { 1u8 } else { 0u8 })
            &&& forall|i: int| 0 < i < SOCKET_RESULT_SIZE && i != 4 ==> #[trigger] a[i] == area[i]
        }),
        ({
            let a = lowered_string_area(area, Ok(s), ptr);
            &&& a.len() == SOCKET_RESULT_SIZE && a[0] == 0 && i32_le(a, 4) == ptr as int
            &&& u32_le(a, 8) == (encode_utf8(s).len() as int) % 0x1_0000_0000
            &&& forall|i: int| 0 < i < SOCKET_RESULT_SIZE && !(4 <= i < 12) ==> #[trigger] a[i] == area[i]
        }),
{
    let z = area.update(0, 0u8);
    lemma_put_i32(z, 4, fd);
    lemma_put_u32(z, 4, x);
    lemma_put_i32(z, 4, ptr);
    let p = put_i32(z, 4, ptr);
    lemma_put_u32(p, 8, payload_len(s));
    let a = put_u32(p, 8, payload_len(s));
    assert(i32_le(a, 4) == i32_le(p, 4)) by {
        assert(a[4] == p[4] && a[5] == p[5] && a[6] == p[6] && a[7] == p[7]);
    }
}

/// Where the host writes an error, whatever the result's ok type: tag 1,
/// variant 0 at byte 4, the description's pointer at 8 and byte length at
/// 12; bytes 1-3 and 5-7 stay as they were.
pub proof fn lemma_lower_socket_error_layouts(area: Seq<u8>, ptr: i32, d: Seq<char>)
    requires
        area.len() == SOCKET_RESULT_SIZE,
    ensures
        ({
            let a = lowered_fd_area(area, Err(d), ptr);
            &&& a.len() == SOCKET_RESULT_SIZE && a[0] == 1 && a[4] == 0 && i32_le(a, 8) == ptr as int
            &&& u32_le(a, 12) == (encode_utf8(d).len() as int) % 0x1_0000_0000
            &&& forall|i: int| 0 < i < 8 && i != 4 ==> #[trigger] a[i] == area[i]
        }),
        ({
            let a = lowered_unit_area(area, Err(d), ptr);
            &&& a.len() == SOCKET_RESULT_SIZE && a[0] == 1 && a[4] == 0 && i32_le(a, 8) == ptr as int
            &&& u32_le(a, 12) == (encode_utf8(d).len() as int) % 0x1_0000_0000
            &&& forall|i: int| 0 < i < 8 && i != 4 ==> #[trigger] a[i] == area[i]
        }),
        ({
            let a = lowered_u32_area(area, Err(d), ptr);
            &&& a.len() == SOCKET_RESULT_SIZE && a[0] == 1 && a[4] == 0 && i32_le(a, 8) == ptr as int
            &&& u32_le(a, 12) == (encode_utf8(d).len() as int) % 0x1_0000_0000
            &&& forall|i: int| 0 < i < 8 && i != 4 ==> #[trigger] a[i] == area[i]
        }),
        ({
            let a = lowered_bool_area(area, Err(d), ptr);
            &&& a.len() == SOCKET_RESULT_SIZE && a[0] == 1 && a[4] == 0 && i32_le(a, 8) == ptr as int
            &&& u32_le(a, 12) == (encode_utf8(d).len() as int) % 0x1_0000_0000
            &&& forall|i: int| 0 < i < 8 && i != 4 ==> #[trigger] a[i] == area[i]
        }),
        ({
            let a = lowered_string_area(area, Err(d), ptr);
            &&& a.len() == SOCKET_RESULT_SIZE && a[0] == 1 && a[4] == 0 && i32_le(a, 8) == ptr as int
            &&& u32_le(a, 12) == (encode_utf8(d).len() as int) % 0x1_0000_0000
            &&& forall|i: int| 0 < i < 8 && i != 4 ==> #[trigger] a[i] == area[i]
        }),
{
    let o = area.update(0, 1u8);
    lemma_put_error(o, 4, ptr, d);
    let a = put_error(o, 4, ptr, d);
    assert(i32_le(a, 8) == ptr as int);
}

/// A `u32` argument reaches the host as the guest passed it.
pub proof fn lemma_u32_lift_lower(v: u32)
    ensures
        lifted_u32(lowered_u32(v)) == v,
{
}

// ---------------------------------------------------------------------------
// Host side: lowering results.

/// The payloads the host copies into guest memory for an outcome whose ok
/// value carries no string.
pub open spec fn error_payloads<T>(v: Result<T, Seq<char>>) -> Seq<Seq<u8>> {
    match v {
        Ok(_) => seq![],
        Err(d) => seq![encode_utf8(d)],
    }
}

/// The payloads the host copies into guest memory for a string outcome.
pub open spec fn string_payloads(v: Result<Seq<char>, Seq<char>>) -> Seq<Seq<u8>> {
    match v {
        Ok(s) => seq![encode_utf8(s)],
        Err(d) => seq![encode_utf8(d)],
    }
}

/// The area after the host lowers the err case `d`, its payload at `ptr`.
pub open spec fn lowered_error_area(area: Seq<u8>, ptr: i32, d: Seq<char>) -> Seq<u8> {
    put_error(area.update(0, 1u8), 4, ptr, d)
}

/// The area after the host lowers a `result<raw-fd, error>`.
pub open spec fn lowered_fd_area(area: Seq<u8>, v: Result<RawFd, Seq<char>>, ptr: i32) -> Seq<u8> {
    match v {
        Ok(fd) => put_i32(area.update(0, 0u8), 4, fd),
        Err(d) => lowered_error_area(area, ptr, d),
    }
}

/// The area after the host lowers a `result<_, error>` with no ok payload.
pub open spec fn lowered_unit_area(area: Seq<u8>, v: Result<(), Seq<char>>, ptr: i32) -> Seq<u8> {
    match v {
        Ok(_) => area.update(0, 0u8),
        Err(d) => lowered_error_area(area, ptr, d),
    }
}

/// The area after the host lowers a `result<u32, error>`.
pub open spec fn lowered_u32_area(area: Seq<u8>, v: Result<u32, Seq<char>>, ptr: i32) -> Seq<u8> {
    match v {
        Ok(x) => put_u32(area.update(0, 0u8), 4, x),
        Err(d) => lowered_error_area(area, ptr, d),
    }
}

/// The area after the host lowers a `result<bool, error>`.
pub open spec fn lowered_bool_area(area: Seq<u8>, v: Result<bool, Seq<char>>, ptr: i32) -> Seq<u8> {
    match v {
        Ok(b) => area.update(0, 0u8).update(4, if b { 1u8 } else { 0u8 }),
        Err(d) => lowered_error_area(area, ptr, d),
    }
}

/// The area after the host lowers a `result<string, error>`, the string's
/// payload (ok or err) at `ptr`.
pub open spec fn lowered_string_area(area: Seq<u8>, v: Result<Seq<char>, Seq<char>>, ptr: i32) -> Seq<u8> {
    match v {
        Ok(s) => put_u32(put_i32(area.update(0, 0u8), 4, ptr), 8, payload_len(s)),
        Err(d) => lowered_error_area(area, ptr, d),
    }
}

/// The payloads the host copies into guest memory for `r` (the description
/// of an error, if any).
pub fn error_result_payloads<T>(r: &Result<T, Error>) -> (p: Vec<Vec<u8>>)
    ensures
        byte_views(p@) == error_payloads(socket_outcome(*r)),
{
    let mut p = Vec::new();
    match r {
        Ok(_) => {},
        Err(Error::ErrorWithDescription(d)) => {
            p.push(utf8_payload(d));
        },
    }
    assert(byte_views(p@) =~= error_payloads(socket_outcome(*r)));
    p
}

/// The payloads the host copies into guest memory for a string outcome.
pub fn string_result_payloads(r: &Result<String, Error>) -> (p: Vec<Vec<u8>>)
    ensures
        byte_views(p@) == string_payloads(string_outcome(*r)),
{
    let mut p = Vec::new();
    match r {
        Ok(s) => {
            p.push(utf8_payload(s));
        },
        Err(Error::ErrorWithDescription(d)) => {
            p.push(utf8_payload(d));
        },
    }
    assert(byte_views(p@) =~= string_payloads(string_outcome(*r)));
    p
}

/// Writes the err case `d` (payload at `ptr`).
fn store_socket_error(area: &mut Vec<u8>, ptr: i32, d: &String)
    requires
        old(area)@.len() == SOCKET_RESULT_SIZE,
    ensures
        final(area)@ == lowered_error_area(old(area)@, ptr, d@),
{
    store_u8(area, 0, 1);
    store_error(area, 4, ptr, d);
}

/// Lowers the result of `tcp-bind` or `tcp-connect`; `ptr` is where the
/// error's description was copied, if it is an error.
pub fn lower_fd_result(area: &mut Vec<u8>, r: &Result<RawFd, Error>, ptr: i32)
    requires
        old(area)@.len() == SOCKET_RESULT_SIZE,
    ensures
        final(area)@ == lowered_fd_area(old(area)@, socket_outcome(*r), ptr),
{
    match r {
        Ok(fd) => {
            store_u8(area, 0, 0);
            store_i32(area, 4, *fd);
        },
        Err(Error::ErrorWithDescription(d)) => store_socket_error(area, ptr, d),
    }
}

/// Lowers the result of `shutdown`, `set-ttl` or `set-nodelay`.
pub fn lower_unit_result(area: &mut Vec<u8>, r: &Result<(), Error>, ptr: i32)
    requires
        old(area)@.len() == SOCKET_RESULT_SIZE,
    ensures
        final(area)@ == lowered_unit_area(old(area)@, socket_outcome(*r), ptr),
{
    match r {
        Ok(_) => store_u8(area, 0, 0),
        Err(Error::ErrorWithDescription(d)) => store_socket_error(area, ptr, d),
    }
}

/// Lowers the result of `get-ttl`.
pub fn lower_u32_result(area: &mut Vec<u8>, r: &Result<u32, Error>, ptr: i32)
    requires
        old(area)@.len() == SOCKET_RESULT_SIZE,
    ensures
        final(area)@ == lowered_u32_area(old(area)@, socket_outcome(*r), ptr),
{
    match r {
        Ok(x) => {
            store_u8(area, 0, 0);
            store_u32(area, 4, *x);
        },
        Err(Error::ErrorWithDescription(d)) => store_socket_error(area, ptr, d),
    }
}

/// Lowers the result of `get-nodelay`.
pub fn lower_bool_result(area: &mut Vec<u8>, r: &Result<bool, Error>, ptr: i32)
    requires
        old(area)@.len() == SOCKET_RESULT_SIZE,
    ensures
        final(area)@ == lowered_bool_area(old(area)@, socket_outcome(*r), ptr),
{
    match r {
        Ok(b) => {
            store_u8(area, 0, 0);
            store_u8(area, 4, if *b { 1 } else { 0 });
        },
        Err(Error::ErrorWithDescription(d)) => store_socket_error(area, ptr, d),
    }
}

/// Lowers the result of `get-local-addr` or `get-peer-addr`; `ptr` is where
/// the payload (the address, or the error's description) was copied.
pub fn lower_string_result(area: &mut Vec<u8>, r: &Result<String, Error>, ptr: i32)
    requires
        old(area)@.len() == SOCKET_RESULT_SIZE,
    ensures
        final(area)@ == lowered_string_area(old(area)@, string_outcome(*r), ptr),
{
    match r {
        Ok(s) => {
            store_u8(area, 0, 0);
            store_i32(area, 4, ptr);
            store_u32(area, 8, payload_len_32(s));
        },
        Err(Error::ErrorWithDescription(d)) => store_socket_error(area, ptr, d),
    }
}

/// What the host lowers into a `result<raw-fd, error>` return area (an
/// error's description copied to `ptr`), the guest accepts, locates at
/// `ptr`, and lifts back unchanged.
pub proof fn lemma_fd_lift_lower(area: Seq<u8>, v: Result<RawFd, Seq<char>>, ptr: i32)
    requires
        area.len() == SOCKET_RESULT_SIZE,
    ensures
        fd_area_valid(lowered_fd_area(area, v, ptr)),
        fd_area_refs(lowered_fd_area(area, v, ptr)) == (match v {
            Ok(_) => Seq::<StrRef>::empty(),
            Err(d) => seq![published_ref(ptr, d)],
        }),
        forall|i: int| 0 <= i < error_payloads(v).len() ==> valid_utf8(#[trigger] error_payloads(v)[i]),
        lifted_fd(lowered_fd_area(area, v, ptr), error_payloads(v)) == v,
{
    broadcast use encode_utf8_valid_utf8, encode_utf8_decode_utf8;

    match v {
        Ok(fd) => {
            lemma_put_i32(area.update(0, 0u8), 4, fd);
            assert(fd_area_refs(lowered_fd_area(area, v, ptr)) =~= Seq::<StrRef>::empty());
        },
        Err(d) => {
            lemma_put_error(area.update(0, 1u8), 4, ptr, d);
            assert(fd_area_refs(lowered_fd_area(area, v, ptr)) =~= seq![published_ref(ptr, d)]);
        },
    }
}

} // verus!
