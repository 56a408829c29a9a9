//! Encoding of the two-instruction trampoline `svc #number; ret`.
use bytes::BufMut;
use vstd::prelude::*;

verus! {

/// Number of values the 16-bit immediate field of `svc` can carry.
pub const SVC_MAX: u32 = 0x10000;

/// `svc #0` with every bit outside the immediate field already in place.
pub const SVC_TEMPLATE: u32 = 0xd400_0001;

/// Mask of the immediate field (bits 20:5) of `svc`.
pub const SVC_IMM_MASK: u32 = 0x001f_ffe0;

/// Encoding of `ret` (return through x30).
pub const RET_INSN: u32 = 0xd65f_03c0;

/// Size in bytes of the default trampoline.
pub const STUB_SIZE: usize = 8;

/// The `svc` instruction whose immediate is `number`.
pub open spec fn svc_insn(number: u32) -> u32 {
    SVC_TEMPLATE | (number << 5u32)
}

/// The four bytes of `v`, least significant first.
pub open spec fn le_bytes(v: u32) -> Seq<u8> {
    seq![
        (v & 0xff) as u8,
        ((v >> 8u32) & 0xff) as u8,
        ((v >> 16u32) & 0xff) as u8,
        ((v >> 24u32) & 0xff) as u8,
    ]
}

/// The bytes of the default trampoline for `number`: `svc #number` then `ret`.
pub open spec fn stub_bytes(number: u32) -> Seq<u8> {
    le_bytes(svc_insn(number)) + le_bytes(RET_INSN)
}

/// Encodes `svc #number`. The immediate field holds `number` exactly and
/// every other bit is the fixed opcode of `svc`.
pub fn assemble_svc(number: u32) -> (r: u32)
    requires
        number < SVC_MAX,
    ensures
        r == svc_insn(number),
        r & !SVC_IMM_MASK == SVC_TEMPLATE,
        (r & SVC_IMM_MASK) >> 5u32 == number,
{
    let r = SVC_TEMPLATE | (number << 5u32);
    assert(r & !0x001f_ffe0u32 == 0xd400_0001u32 && (r & 0x001f_ffe0u32) >> 5u32 == number)
        by (bit_vector)
        requires
            number < 0x10000u32,
            r == 0xd400_0001u32 | (number << 5u32),
    ;
    r
}

/// Relies on bytes' `BufMut::put_u32_le` for `Vec<u8>`: appends the four
/// little-endian bytes of `v`. It panics only when the vector would pass
/// `isize::MAX` bytes.
#[verifier::external_body]
fn put_u32_le(buf: &mut Vec<u8>, v: u32)
    requires
        old(buf)@.len() + 4 <= isize::MAX,
    ensures
        final(buf)@ == old(buf)@ + le_bytes(v),
{
    buf.put_u32_le(v)
}

/// The default trampoline for `number`: `svc #number` then `ret`, each
/// little-endian.
pub fn assemble_stub(number: u32) -> (r: Vec<u8>)
    requires
        number < SVC_MAX,
    ensures
        r@ == stub_bytes(number),
        r@.len() == STUB_SIZE,
{
    let mut buf: Vec<u8> = Vec::new();
    put_u32_le(&mut buf, assemble_svc(number));
    put_u32_le(&mut buf, RET_INSN);
    buf
}

} // verus!
