//! Host↔guest transport sketch (contract-only).
//!
//! Defines clean-room message shapes for buffer create/destroy/copy and
//! validates wire frames. Parsing a well-formed buffer/copy shape does **not**
//! allocate guest buffers, run a queue, or invent a Metal device. Queue-class
//! opcodes are rejected explicitly.
use vstd::prelude::*;
use crate::metal_acceptance::MetalAcceptanceReport;
use crate::metal_public_abi::MetalPublicAbi;
use crate::text::{decimal_string, hex_half, hex_word, spec_decimal, spec_hex_half, spec_hex_word};
use crate::wire::{
    lemma_u16_roundtrip, lemma_u32_roundtrip, lemma_u64_roundtrip,
    extend_bytes, read_u16_le, read_u32_le, read_u64_le, spec_u16_bytes, spec_u16_le, spec_u32_bytes,
    spec_u32_le, spec_u64_bytes, spec_u64_le, u16_bytes, u32_bytes, u64_bytes,
};

verus! {

/// Machine-checkable marker for the transport sketch.
pub const M3_TRANSPORT_DOC_MARKER: &'static str = "M3_TRANSPORT:buffer-copy-shapes-reject";

/// ASCII `NCMT` — NextCore Metal Transport (clean-room; not Apple PVG).
pub const METAL_TRANSPORT_MAGIC: u32 = 0x4E_43_4D_54;
/// Sketch wire version. Unsupported versions reject.
pub const METAL_TRANSPORT_VERSION: u16 = 1;
/// Fixed header size in bytes (little-endian fields).
pub const METAL_TRANSPORT_HEADER_BYTES: usize = 16;
/// Contract max payload for the sketch (rejects larger frames).
pub const METAL_TRANSPORT_MAX_PAYLOAD: u32 = 4096;

/// Wire opcodes. Only buffer/copy class is shape-validated.
#[derive(Debug, Clone, Copy, PartialEq, Eq, Hash, Structural)]
pub enum MetalTransportOpcode {
    BufferCreate,
    BufferDestroy,
    BufferCopy,
    /// Queue submit — always rejected.
    QueueSubmit,
    /// Fence signal — always rejected.
    FenceSignal,
}

/// The opcode a wire value names, if any.
pub open spec fn spec_opcode_from_u16(value: u16) -> Option<MetalTransportOpcode> {
    if value == 0x0001 {
        Some(MetalTransportOpcode::BufferCreate)
    } else if value == 0x0002 {
        Some(MetalTransportOpcode::BufferDestroy)
    } else if value == 0x0003 {
        Some(MetalTransportOpcode::BufferCopy)
    } else if value == 0x0010 {
        Some(MetalTransportOpcode::QueueSubmit)
    } else if value == 0x0011 {
        Some(MetalTransportOpcode::FenceSignal)
    } else {
        None
    }
}

impl MetalTransportOpcode {
    /// The wire value of the opcode.
    pub open spec fn spec_to_u16(self) -> u16 {
        match self {
            MetalTransportOpcode::BufferCreate => 0x0001,
            MetalTransportOpcode::BufferDestroy => 0x0002,
            MetalTransportOpcode::BufferCopy => 0x0003,
            MetalTransportOpcode::QueueSubmit => 0x0010,
            MetalTransportOpcode::FenceSignal => 0x0011,
        }
    }

    pub open spec fn spec_is_queue_class(self) -> bool {
        self is QueueSubmit || self is FenceSignal
    }

    /// The wire value of the opcode.
    pub fn to_u16(self) -> (r: u16)
        ensures
            r == self.spec_to_u16(),
    {
        match self {
            MetalTransportOpcode::BufferCreate => 0x0001,
            MetalTransportOpcode::BufferDestroy => 0x0002,
            MetalTransportOpcode::BufferCopy => 0x0003,
            MetalTransportOpcode::QueueSubmit => 0x0010,
            MetalTransportOpcode::FenceSignal => 0x0011,
        }
    }

    pub fn from_u16(value: u16) -> (r: Option<Self>)
        ensures
            r == spec_opcode_from_u16(value),
    {
        match value {
            0x0001 => Some(MetalTransportOpcode::BufferCreate),
            0x0002 => Some(MetalTransportOpcode::BufferDestroy),
            0x0003 => Some(MetalTransportOpcode::BufferCopy),
            0x0010 => Some(MetalTransportOpcode::QueueSubmit),
            0x0011 => Some(MetalTransportOpcode::FenceSignal),
            _ => None,
        }
    }

    pub fn is_buffer_copy_class(self) -> (r: bool)
        ensures
            r == !self.spec_is_queue_class(),
    {
        match self {
            MetalTransportOpcode::BufferCreate | MetalTransportOpcode::BufferDestroy
            | MetalTransportOpcode::BufferCopy => true,
            _ => false,
        }
    }

    pub fn is_queue_class(self) -> (r: bool)
        ensures
            r == self.spec_is_queue_class(),
    {
        match self {
            MetalTransportOpcode::QueueSubmit | MetalTransportOpcode::FenceSignal => true,
            _ => false,
        }
    }
}

/// Reading an opcode back from its wire value gives the opcode.
pub proof fn law_opcode_wire_roundtrip(op: MetalTransportOpcode)
    ensures
        spec_opcode_from_u16(op.spec_to_u16()) == Some(op),
{
}

/// Explicit transport reject paths.
#[derive(Debug, Clone, Copy, PartialEq, Eq, Structural)]
pub enum MetalTransportReject {
    FrameTooShort,
    InvalidMagic { got: u32 },
    UnsupportedVersion { got: u16 },
    UnknownOpcode(u16),
    PayloadTooLarge { got: u32 },
    PayloadLengthMismatch { expected: usize, actual: usize },
    FrameLengthMismatch { expected: usize, actual: usize },
    ZeroSize,
    SizeOverflow,
    InvalidAlignment,
    SizeNotAligned,
    UnknownFlags(u32),
    InvalidHandle(u64),
    SelfCopyOverlap,
    /// Queue / fence opcodes must not run.
    QueueExecutionForbidden(MetalTransportOpcode),
    /// Even a valid buffer/copy shape must not execute (no device / no queue).
    TransportNotExecutable,
    /// Design D10 / metal_verified still unmet.
    AcceptanceUnmet,
}

impl MetalTransportOpcode {
    /// The opcode's name, as `Debug` writes it.
    pub open spec fn spec_name(self) -> Seq<char> {
        match self {
            MetalTransportOpcode::BufferCreate => "BufferCreate"@,
            MetalTransportOpcode::BufferDestroy => "BufferDestroy"@,
            MetalTransportOpcode::BufferCopy => "BufferCopy"@,
            MetalTransportOpcode::QueueSubmit => "QueueSubmit"@,
            MetalTransportOpcode::FenceSignal => "FenceSignal"@,
        }
    }

    pub fn name(self) -> (r: &'static str)
        ensures
            r@ == self.spec_name(),
    {
        match self {
            MetalTransportOpcode::BufferCreate => "BufferCreate",
            MetalTransportOpcode::BufferDestroy => "BufferDestroy",
            MetalTransportOpcode::BufferCopy => "BufferCopy",
            MetalTransportOpcode::QueueSubmit => "QueueSubmit",
            MetalTransportOpcode::FenceSignal => "FenceSignal",
        }
    }
}

impl MetalTransportReject {
    pub open spec fn spec_message(&self) -> Seq<char> {
        match self {
            MetalTransportReject::FrameTooShort => "transport frame shorter than header"@,
            MetalTransportReject::InvalidMagic { got } => "invalid transport magic "@ + spec_hex_word(*got),
            MetalTransportReject::UnsupportedVersion { got } => "unsupported transport version "@
                + spec_decimal(*got as nat),
            MetalTransportReject::UnknownOpcode(op) => "unknown transport opcode "@ + spec_hex_half(*op),
            MetalTransportReject::PayloadTooLarge { got } => "payload too large ("@ + spec_decimal(
                *got as nat,
            ) + " > 4096)"@,
            MetalTransportReject::PayloadLengthMismatch { expected, actual } =>
                "payload length mismatch: expected "@ + spec_decimal(*expected as nat) + ", got "@
                + spec_decimal(*actual as nat),
            MetalTransportReject::FrameLengthMismatch { expected, actual } =>
                "frame length mismatch: expected "@ + spec_decimal(*expected as nat) + ", got "@
                + spec_decimal(*actual as nat),
            MetalTransportReject::ZeroSize => "zero-size buffer/copy rejected"@,
            MetalTransportReject::SizeOverflow => "offset+size overflow"@,
            MetalTransportReject::InvalidAlignment => "alignment must be 0 or power-of-two"@,
            MetalTransportReject::SizeNotAligned => "size not aligned to requested alignment"@,
            MetalTransportReject::UnknownFlags(flags) => "unknown flags "@ + spec_hex_word(*flags),
            MetalTransportReject::InvalidHandle(h) => "invalid handle "@ + spec_decimal(*h as nat),
            MetalTransportReject::SelfCopyOverlap => "self-copy with overlapping ranges rejected"@,
            MetalTransportReject::QueueExecutionForbidden(op) => "queue-class opcode "@ + op.spec_name()
                + " forbidden at M3"@,
            MetalTransportReject::TransportNotExecutable =>
                "transport sketch is not executable; no guest Metal device"@,
            MetalTransportReject::AcceptanceUnmet => "metal acceptance unmet; metal_verified remains false"@,
        }
    }

    /// The reject's text.
    pub fn message(&self) -> (r: String)
        ensures
            r@ == self.spec_message(),
    {
        match self {
            MetalTransportReject::FrameTooShort => String::from_str("transport frame shorter than header"),
            MetalTransportReject::InvalidMagic { got } => {
                let mut m = String::from_str("invalid transport magic ");
                m.append(hex_word(*got).as_str());
                m
            },
            MetalTransportReject::UnsupportedVersion { got } => {
                let mut m = String::from_str("unsupported transport version ");
                m.append(decimal_string(*got as u64).as_str());
                m
            },
            MetalTransportReject::UnknownOpcode(op) => {
                let mut m = String::from_str("unknown transport opcode ");
                m.append(hex_half(*op).as_str());
                m
            },
            MetalTransportReject::PayloadTooLarge { got } => {
                let mut m = String::from_str("payload too large (");
                m.append(decimal_string(*got as u64).as_str());
                m.append(" > 4096)");
                m
            },
            MetalTransportReject::PayloadLengthMismatch { expected, actual } => {
                let mut m = String::from_str("payload length mismatch: expected ");
                m.append(decimal_string(*expected as u64).as_str());
                m.append(", got ");
                m.append(decimal_string(*actual as u64).as_str());
                m
            },
            MetalTransportReject::FrameLengthMismatch { expected, actual } => {
                let mut m = String::from_str("frame length mismatch: expected ");
                m.append(decimal_string(*expected as u64).as_str());
                m.append(", got ");
                m.append(decimal_string(*actual as u64).as_str());
                m
            },
            MetalTransportReject::ZeroSize => String::from_str("zero-size buffer/copy rejected"),
            MetalTransportReject::SizeOverflow => String::from_str("offset+size overflow"),
            MetalTransportReject::InvalidAlignment => String::from_str("alignment must be 0 or power-of-two"),
            MetalTransportReject::SizeNotAligned => String::from_str("size not aligned to requested alignment"),
            MetalTransportReject::UnknownFlags(flags) => {
                let mut m = String::from_str("unknown flags ");
                m.append(hex_word(*flags).as_str());
                m
            },
            MetalTransportReject::InvalidHandle(h) => {
                let mut m = String::from_str("invalid handle ");
                m.append(decimal_string(*h).as_str());
                m
            },
            MetalTransportReject::SelfCopyOverlap => String::from_str("self-copy with overlapping ranges rejected"),
            MetalTransportReject::QueueExecutionForbidden(op) => {
                let mut m = String::from_str("queue-class opcode ");
                m.append(op.name());
                m.append(" forbidden at M3");
                m
            },
            MetalTransportReject::TransportNotExecutable => String::from_str(
                "transport sketch is not executable; no guest Metal device",
            ),
            MetalTransportReject::AcceptanceUnmet => String::from_str(
                "metal acceptance unmet; metal_verified remains false",
            ),
        }
    }
}

/// Fixed 16-byte little-endian header.
#[derive(Debug, Clone, Copy, PartialEq, Eq, Structural)]
pub struct MetalTransportHeader {
    pub magic: u32,
    pub version: u16,
    pub opcode: u16,
    pub payload_len: u32,
    pub flags: u32,
}

/// Payload size each opcode carries.
pub open spec fn spec_payload_size_for(opcode: MetalTransportOpcode) -> u32 {
    match opcode {
        MetalTransportOpcode::BufferCreate => 16,
        MetalTransportOpcode::BufferDestroy => 8,
        MetalTransportOpcode::BufferCopy => 40,
        MetalTransportOpcode::QueueSubmit => 0,
        MetalTransportOpcode::FenceSignal => 0,
    }
}

impl MetalTransportHeader {
    /// The header's 16 wire bytes.
    pub open spec fn spec_encode(self) -> Seq<u8> {
        spec_u32_bytes(self.magic) + spec_u16_bytes(self.version) + spec_u16_bytes(self.opcode)
            + spec_u32_bytes(self.payload_len) + spec_u32_bytes(self.flags)
    }

    /// The header read from the first 16 bytes of `b`.
    pub open spec fn spec_read(b: Seq<u8>) -> Self {
        MetalTransportHeader {
            magic: spec_u32_le(b, 0),
            version: spec_u16_le(b, 4),
            opcode: spec_u16_le(b, 6),
            payload_len: spec_u32_le(b, 8),
            flags: spec_u32_le(b, 12),
        }
    }

    pub fn payload_size_for(opcode: MetalTransportOpcode) -> (r: u32)
        ensures
            r == spec_payload_size_for(opcode),
    {
        match opcode {
            MetalTransportOpcode::BufferCreate => 16,
            MetalTransportOpcode::BufferDestroy => 8,
            MetalTransportOpcode::BufferCopy => 40,
            MetalTransportOpcode::QueueSubmit | MetalTransportOpcode::FenceSignal => 0,
        }
    }

    pub fn encode(self) -> (r: [u8; 16])
        ensures
            r@ == self.spec_encode(),
    {
        let m = u32_bytes(self.magic);
        let v = u16_bytes(self.version);
        let o = u16_bytes(self.opcode);
        let p = u32_bytes(self.payload_len);
        let f = u32_bytes(self.flags);
        let r = [
            m[0], m[1], m[2], m[3], v[0], v[1], o[0], o[1], p[0], p[1], p[2], p[3], f[0], f[1],
            f[2], f[3],
        ];
        assert(r@ =~= self.spec_encode());
        r
    }

    pub fn decode(bytes: &[u8]) -> (r: Result<Self, MetalTransportReject>)
        ensures
            bytes@.len() < 16 ==> r == Err::<Self, MetalTransportReject>(
                MetalTransportReject::FrameTooShort,
            ),
            bytes@.len() >= 16 ==> r == Ok::<Self, MetalTransportReject>(
                Self::spec_read(bytes@),
            ),
    {
        if bytes.len() < METAL_TRANSPORT_HEADER_BYTES {
            return Err(MetalTransportReject::FrameTooShort);
        }
        Ok(MetalTransportHeader {
            magic: read_u32_le(bytes, 0),
            version: read_u16_le(bytes, 4),
            opcode: read_u16_le(bytes, 6),
            payload_len: read_u32_le(bytes, 8),
            flags: read_u32_le(bytes, 12),
        })
    }
}

/// `x` is a power of two.
pub open spec fn spec_is_power_of_two(x: u32) -> bool {
    exists|k: u32| k < 32 && x == (1u32 << k)
}

/// Whether `x` is a power of two.
pub fn is_power_of_two(x: u32) -> (r: bool)
    ensures
        r == spec_is_power_of_two(x),
{
    let mut k: u32 = 0;
    while k < 32
        invariant
            k <= 32,
            forall|j: u32| j < k ==> x != (1u32 << j),
        decreases 32 - k,
    {
        if x == (1u32 << k) {
            return true;
        }
        k = k + 1;
    }
    false
}

/// Buffer create payload (16 bytes).
#[derive(Debug, Clone, Copy, PartialEq, Eq, Structural)]
pub struct BufferCreateShape {
    pub size: u64,
    pub alignment: u32,
    pub flags: u32,
}

/// `1 << k` is `2^k` for every shift below 32.
proof fn lemma_shift_is_pow2(k: u32)
    requires
        k < 32,
    ensures
        (1u32 << k) as nat == vstd::arithmetic::power2::pow2(k as nat),
{
    vstd::bits::lemma_u32_pow2_no_overflow(k as nat);
    vstd::bits::lemma_u32_shl_is_mul(1u32, k);
}

/// A buffer-create request is accepted exactly when its size is nonzero, its
/// alignment is 0 or a power of two `2^k` (`k < 32`) that divides the size,
/// and no flag is set. So an accepted request with a nonzero alignment has a
/// size that is a multiple of it, and a nonzero size that is not a multiple
/// of a power-of-two alignment is refused as `SizeNotAligned`.
pub proof fn law_buffer_create_rules(s: BufferCreateShape)
    ensures
        s.spec_validate() is Ok <==> (s.size != 0 && s.flags == 0 && (s.alignment == 0 || ((exists|k: nat|
            k < 32 && s.alignment == vstd::arithmetic::power2::pow2(k)) && s.size % (s.alignment as u64) == 0))),
        s.spec_validate() is Ok && s.alignment != 0 ==> s.size % (s.alignment as u64) == 0,
        s.size != 0 && s.alignment != 0 && (exists|k: nat| k < 32 && s.alignment == vstd::arithmetic::power2::pow2(k))
            && s.size % (s.alignment as u64) != 0 ==> s.spec_validate() == Err::<(), MetalTransportReject>(
            MetalTransportReject::SizeNotAligned,
        ),
{
    let a = s.alignment;
    let p = exists|k: nat| k < 32 && a == vstd::arithmetic::power2::pow2(k);
    assert(spec_is_power_of_two(a) <==> p) by {
        if spec_is_power_of_two(a) {
            let k = choose|k: u32| k < 32 && a == (1u32 << k);
            lemma_shift_is_pow2(k);
            assert(a == vstd::arithmetic::power2::pow2(k as nat));
        }
        if p {
            let k = choose|k: nat| k < 32 && a == vstd::arithmetic::power2::pow2(k);
            let k32 = k as u32;
            lemma_shift_is_pow2(k32);
            assert(a == (1u32 << k32));
        }
    }
}

impl BufferCreateShape {
    pub open spec fn spec_encode(self) -> Seq<u8> {
        spec_u64_bytes(self.size) + spec_u32_bytes(self.alignment) + spec_u32_bytes(self.flags)
    }

    pub open spec fn spec_read(b: Seq<u8>) -> Self {
        BufferCreateShape { size: spec_u64_le(b, 0), alignment: spec_u32_le(b, 8), flags: spec_u32_le(b, 12) }
    }

    pub open spec fn spec_validate(self) -> Result<(), MetalTransportReject> {
        if self.size == 0 {
            Err(MetalTransportReject::ZeroSize)
        } else if self.alignment != 0 && !spec_is_power_of_two(self.alignment) {
            Err(MetalTransportReject::InvalidAlignment)
        } else if self.alignment != 0 && self.size % (self.alignment as u64) != 0 {
            Err(MetalTransportReject::SizeNotAligned)
        } else if self.flags != 0 {
            Err(MetalTransportReject::UnknownFlags(self.flags))
        } else {
            Ok(())
        }
    }

    pub fn encode(self) -> (r: [u8; 16])
        ensures
            r@ == self.spec_encode(),
    {
        let s = u64_bytes(self.size);
        let a = u32_bytes(self.alignment);
        let f = u32_bytes(self.flags);
        let r = [
            s[0], s[1], s[2], s[3], s[4], s[5], s[6], s[7], a[0], a[1], a[2], a[3], f[0], f[1],
            f[2], f[3],
        ];
        assert(r@ =~= self.spec_encode());
        r
    }

    pub fn decode(bytes: &[u8]) -> (r: Result<Self, MetalTransportReject>)
        ensures
            bytes@.len() != 16 ==> r == Err::<Self, MetalTransportReject>(
                MetalTransportReject::PayloadLengthMismatch { expected: 16, actual: bytes@.len() as usize },
            ),
            bytes@.len() == 16 ==> r == Ok::<Self, MetalTransportReject>(Self::spec_read(bytes@)),
    {
        if bytes.len() != 16 {
            return Err(
                MetalTransportReject::PayloadLengthMismatch { expected: 16, actual: bytes.len() },
            );
        }
        Ok(BufferCreateShape {
            size: read_u64_le(bytes, 0),
            alignment: read_u32_le(bytes, 8),
            flags: read_u32_le(bytes, 12),
        })
    }

    pub fn validate(self) -> (r: Result<(), MetalTransportReject>)
        ensures
            r == self.spec_validate(),
    {
        if self.size == 0 {
            return Err(MetalTransportReject::ZeroSize);
        }
        if self.alignment != 0 && !is_power_of_two(self.alignment) {
            return Err(MetalTransportReject::InvalidAlignment);
        }
        if self.alignment != 0 && (self.size % (self.alignment as u64)) != 0 {
            return Err(MetalTransportReject::SizeNotAligned);
        }
        if self.flags != 0 {
            return Err(MetalTransportReject::UnknownFlags(self.flags));
        }
        Ok(())
    }
}

/// Buffer destroy payload (8 bytes).
#[derive(Debug, Clone, Copy, PartialEq, Eq, Structural)]
pub struct BufferDestroyShape {
    pub handle: u64,
}

impl BufferDestroyShape {
    pub open spec fn spec_encode(self) -> Seq<u8> {
        spec_u64_bytes(self.handle)
    }

    pub open spec fn spec_read(b: Seq<u8>) -> Self {
        BufferDestroyShape { handle: spec_u64_le(b, 0) }
    }

    pub open spec fn spec_validate(self) -> Result<(), MetalTransportReject> {
        if self.handle == 0 {
            Err(MetalTransportReject::InvalidHandle(0))
        } else {
            Ok(())
        }
    }

    pub fn encode(self) -> (r: [u8; 8])
        ensures
            r@ == self.spec_encode(),
    {
        u64_bytes(self.handle)
    }

    pub fn decode(bytes: &[u8]) -> (r: Result<Self, MetalTransportReject>)
        ensures
            bytes@.len() != 8 ==> r == Err::<Self, MetalTransportReject>(
                MetalTransportReject::PayloadLengthMismatch { expected: 8, actual: bytes@.len() as usize },
            ),
            bytes@.len() == 8 ==> r == Ok::<Self, MetalTransportReject>(Self::spec_read(bytes@)),
    {
        if bytes.len() != 8 {
            return Err(
                MetalTransportReject::PayloadLengthMismatch { expected: 8, actual: bytes.len() },
            );
        }
        Ok(BufferDestroyShape { handle: read_u64_le(bytes, 0) })
    }

    pub fn validate(self) -> (r: Result<(), MetalTransportReject>)
        ensures
            r == self.spec_validate(),
    {
        if self.handle == 0 {
            return Err(MetalTransportReject::InvalidHandle(0));
        }
        Ok(())
    }
}

/// Buffer copy payload (40 bytes) — clean-room host↔guest copy request shape.
#[derive(Debug, Clone, Copy, PartialEq, Eq, Structural)]
pub struct BufferCopyShape {
    pub src_handle: u64,
    pub dst_handle: u64,
    pub src_offset: u64,
    pub dst_offset: u64,
    pub size: u64,
}

/// A buffer-copy request is accepted exactly when it copies a nonzero number
/// of bytes between nonzero handles, neither range runs past `u64::MAX`, and a
/// copy within one buffer reads and writes disjoint ranges.
pub proof fn law_buffer_copy_rules(s: BufferCopyShape)
    ensures
        s.spec_validate() is Ok <==> {
            &&& s.size != 0
            &&& s.src_handle != 0 && s.dst_handle != 0
            &&& s.src_offset + s.size <= u64::MAX && s.dst_offset + s.size <= u64::MAX
            &&& s.src_handle == s.dst_handle ==> (s.src_offset + s.size <= s.dst_offset || s.dst_offset
                + s.size <= s.src_offset)
        },
{
}

impl BufferCopyShape {
    pub open spec fn spec_encode(self) -> Seq<u8> {
        spec_u64_bytes(self.src_handle) + spec_u64_bytes(self.dst_handle) + spec_u64_bytes(
            self.src_offset,
        ) + spec_u64_bytes(self.dst_offset) + spec_u64_bytes(self.size)
    }

    pub open spec fn spec_read(b: Seq<u8>) -> Self {
        BufferCopyShape {
            src_handle: spec_u64_le(b, 0),
            dst_handle: spec_u64_le(b, 8),
            src_offset: spec_u64_le(b, 16),
            dst_offset: spec_u64_le(b, 24),
            size: spec_u64_le(b, 32),
        }
    }

    pub open spec fn spec_validate(self) -> Result<(), MetalTransportReject> {
        if self.size == 0 {
            Err(MetalTransportReject::ZeroSize)
        } else if self.src_handle == 0 || self.dst_handle == 0 {
            Err(MetalTransportReject::InvalidHandle(0))
        } else if self.src_offset + self.size > u64::MAX || self.dst_offset + self.size > u64::MAX {
            Err(MetalTransportReject::SizeOverflow)
        } else if self.src_handle == self.dst_handle && self.src_offset < self.dst_offset
            + self.size && self.dst_offset < self.src_offset + self.size {
            Err(MetalTransportReject::SelfCopyOverlap)
        } else {
            Ok(())
        }
    }

    pub fn encode(self) -> (r: [u8; 40])
        ensures
            r@ == self.spec_encode(),
    {
        let a = u64_bytes(self.src_handle);
        let b = u64_bytes(self.dst_handle);
        let c = u64_bytes(self.src_offset);
        let d = u64_bytes(self.dst_offset);
        let e = u64_bytes(self.size);
        let r = [
            a[0], a[1], a[2], a[3], a[4], a[5], a[6], a[7], b[0], b[1], b[2], b[3], b[4], b[5],
            b[6], b[7], c[0], c[1], c[2], c[3], c[4], c[5], c[6], c[7], d[0], d[1], d[2], d[3],
            d[4], d[5], d[6], d[7], e[0], e[1], e[2], e[3], e[4], e[5], e[6], e[7],
        ];
        assert(r@ =~= self.spec_encode());
        r
    }

    pub fn decode(bytes: &[u8]) -> (r: Result<Self, MetalTransportReject>)
        ensures
            bytes@.len() != 40 ==> r == Err::<Self, MetalTransportReject>(
                MetalTransportReject::PayloadLengthMismatch { expected: 40, actual: bytes@.len() as usize },
            ),
            bytes@.len() == 40 ==> r == Ok::<Self, MetalTransportReject>(Self::spec_read(bytes@)),
    {
        if bytes.len() != 40 {
            return Err(
                MetalTransportReject::PayloadLengthMismatch { expected: 40, actual: bytes.len() },
            );
        }
        Ok(BufferCopyShape {
            src_handle: read_u64_le(bytes, 0),
            dst_handle: read_u64_le(bytes, 8),
            src_offset: read_u64_le(bytes, 16),
            dst_offset: read_u64_le(bytes, 24),
            size: read_u64_le(bytes, 32),
        })
    }

    pub fn validate(self) -> (r: Result<(), MetalTransportReject>)
        ensures
            r == self.spec_validate(),
    {
        if self.size == 0 {
            return Err(MetalTransportReject::ZeroSize);
        }
        if self.src_handle == 0 {
            return Err(MetalTransportReject::InvalidHandle(0));
        }
        if self.dst_handle == 0 {
            return Err(MetalTransportReject::InvalidHandle(0));
        }
        let src_end = match self.src_offset.checked_add(self.size) {
            Some(e) => e,
            None => return Err(MetalTransportReject::SizeOverflow),
        };
        let dst_end = match self.dst_offset.checked_add(self.size) {
            Some(e) => e,
            None => return Err(MetalTransportReject::SizeOverflow),
        };
        if self.src_handle == self.dst_handle {
            let overlap = self.src_offset < dst_end && self.dst_offset < src_end;
            if overlap {
                return Err(MetalTransportReject::SelfCopyOverlap);
            }
        }
        Ok(())
    }
}

/// Validated buffer/copy class shapes (contract-only; not executed).
#[derive(Debug, Clone, Copy, PartialEq, Eq, Structural)]
pub enum MetalTransportShape {
    BufferCreate(BufferCreateShape),
    BufferDestroy(BufferDestroyShape),
    BufferCopy(BufferCopyShape),
}

impl MetalTransportShape {
    pub open spec fn spec_opcode(self) -> MetalTransportOpcode {
        match self {
            MetalTransportShape::BufferCreate(_) => MetalTransportOpcode::BufferCreate,
            MetalTransportShape::BufferDestroy(_) => MetalTransportOpcode::BufferDestroy,
            MetalTransportShape::BufferCopy(_) => MetalTransportOpcode::BufferCopy,
        }
    }

    /// The payload bytes of the shape.
    pub open spec fn spec_payload(self) -> Seq<u8> {
        match self {
            MetalTransportShape::BufferCreate(s) => s.spec_encode(),
            MetalTransportShape::BufferDestroy(s) => s.spec_encode(),
            MetalTransportShape::BufferCopy(s) => s.spec_encode(),
        }
    }

    /// Validation of the shape's body.
    pub open spec fn spec_validate(self) -> Result<(), MetalTransportReject> {
        match self {
            MetalTransportShape::BufferCreate(s) => s.spec_validate(),
            MetalTransportShape::BufferDestroy(s) => s.spec_validate(),
            MetalTransportShape::BufferCopy(s) => s.spec_validate(),
        }
    }

    /// The whole wire frame of the shape: header, then payload.
    pub open spec fn spec_frame(self) -> Seq<u8> {
        MetalTransportHeader {
            magic: METAL_TRANSPORT_MAGIC,
            version: METAL_TRANSPORT_VERSION,
            opcode: self.spec_opcode().spec_to_u16(),
            payload_len: self.spec_payload().len() as u32,
            flags: 0,
        }.spec_encode() + self.spec_payload()
    }

    pub fn opcode(self) -> (r: MetalTransportOpcode)
        ensures
            r == self.spec_opcode(),
    {
        match self {
            MetalTransportShape::BufferCreate(_) => MetalTransportOpcode::BufferCreate,
            MetalTransportShape::BufferDestroy(_) => MetalTransportOpcode::BufferDestroy,
            MetalTransportShape::BufferCopy(_) => MetalTransportOpcode::BufferCopy,
        }
    }
}

/// The shape a well-sized payload of a buffer/copy opcode describes, validated.
pub open spec fn spec_read_shape(opcode: MetalTransportOpcode, payload: Seq<u8>) -> Result<
    MetalTransportShape,
    MetalTransportReject,
> {
    match opcode {
        MetalTransportOpcode::BufferCreate => {
            let s = BufferCreateShape::spec_read(payload);
            match s.spec_validate() {
                Ok(_) => Ok(MetalTransportShape::BufferCreate(s)),
                Err(e) => Err(e),
            }
        },
        MetalTransportOpcode::BufferDestroy => {
            let s = BufferDestroyShape::spec_read(payload);
            match s.spec_validate() {
                Ok(_) => Ok(MetalTransportShape::BufferDestroy(s)),
                Err(e) => Err(e),
            }
        },
        MetalTransportOpcode::BufferCopy => {
            let s = BufferCopyShape::spec_read(payload);
            match s.spec_validate() {
                Ok(_) => Ok(MetalTransportShape::BufferCopy(s)),
                Err(e) => Err(e),
            }
        },
        _ => Err(MetalTransportReject::QueueExecutionForbidden(opcode)),
    }
}

/// What `parse_frame` answers for a transport holding `acceptance`.
pub open spec fn spec_parse_frame(acceptance: MetalAcceptanceReport, frame: Seq<u8>) -> Result<
    MetalTransportShape,
    MetalTransportReject,
> {
    if acceptance.metal_verified || acceptance.spec_d10_complete() {
        Err(MetalTransportReject::AcceptanceUnmet)
    } else if frame.len() < 16 {
        Err(MetalTransportReject::FrameTooShort)
    } else {
        let h = MetalTransportHeader::spec_read(frame);
        if h.magic != METAL_TRANSPORT_MAGIC {
            Err(MetalTransportReject::InvalidMagic { got: h.magic })
        } else if h.version != METAL_TRANSPORT_VERSION {
            Err(MetalTransportReject::UnsupportedVersion { got: h.version })
        } else if h.payload_len > METAL_TRANSPORT_MAX_PAYLOAD {
            Err(MetalTransportReject::PayloadTooLarge { got: h.payload_len })
        } else if frame.len() != 16 + h.payload_len {
            Err(
                MetalTransportReject::FrameLengthMismatch {
                    expected: (16 + h.payload_len) as usize,
                    actual: frame.len() as usize,
                },
            )
        } else {
            match spec_opcode_from_u16(h.opcode) {
                None => Err(MetalTransportReject::UnknownOpcode(h.opcode)),
                Some(op) => {
                    if op.spec_is_queue_class() {
                        Err(MetalTransportReject::QueueExecutionForbidden(op))
                    } else if h.payload_len != spec_payload_size_for(op) {
                        Err(
                            MetalTransportReject::PayloadLengthMismatch {
                                expected: spec_payload_size_for(op) as usize,
                                actual: h.payload_len as usize,
                            },
                        )
                    } else if h.flags != 0 {
                        Err(MetalTransportReject::UnknownFlags(h.flags))
                    } else {
                        spec_read_shape(op, frame.subrange(16, frame.len() as int))
                    }
                },
            }
        }
    }
}

/// Host↔guest transport sketch handle. Validates shapes; never executes work.
#[derive(Debug, Clone, Copy, PartialEq, Eq, Structural)]
pub struct MetalTransport {
    acceptance: MetalAcceptanceReport,
}

impl MetalTransport {
    pub closed spec fn spec_acceptance(self) -> MetalAcceptanceReport {
        self.acceptance
    }

    /// What `execute_shape` answers.
    pub open spec fn spec_execute_shape(self) -> Result<(), MetalTransportReject> {
        if self.spec_acceptance().metal_verified || self.spec_acceptance().spec_d10_complete() {
            Err(MetalTransportReject::AcceptanceUnmet)
        } else {
            Err(MetalTransportReject::TransportNotExecutable)
        }
    }

    /// Honest surface: unmet acceptance; shapes only.
    pub fn current() -> (r: Self)
        ensures
            r.spec_acceptance() == MetalAcceptanceReport::spec_unmet(),
    {
        MetalTransport { acceptance: MetalAcceptanceReport::unmet() }
    }

    pub fn from_abi(abi: &MetalPublicAbi) -> (r: Self)
        ensures
            r.spec_acceptance() == abi.spec_acceptance(),
    {
        MetalTransport { acceptance: *abi.acceptance() }
    }

    pub fn acceptance(&self) -> (r: &MetalAcceptanceReport)
        ensures
            *r == self.spec_acceptance(),
    {
        &self.acceptance
    }

    /// Parse + validate a full wire frame into a buffer/copy shape.
    ///
    /// Queue-class opcodes reject here. Valid shapes are returned for contract
    /// tests only — call [`Self::execute_shape`] to confirm non-execution.
    pub fn parse_frame(&self, frame: &[u8]) -> (r: Result<MetalTransportShape, MetalTransportReject>)
        ensures
            r == spec_parse_frame(self.spec_acceptance(), frame@),
    {
        if self.acceptance.metal_verified || self.acceptance.d10_complete() {
            return Err(MetalTransportReject::AcceptanceUnmet);
        }
        let header = match MetalTransportHeader::decode(frame) {
            Ok(h) => h,
            Err(e) => return Err(e),
        };
        if header.magic != METAL_TRANSPORT_MAGIC {
            return Err(MetalTransportReject::InvalidMagic { got: header.magic });
        }
        if header.version != METAL_TRANSPORT_VERSION {
            return Err(MetalTransportReject::UnsupportedVersion { got: header.version });
        }
        if header.payload_len > METAL_TRANSPORT_MAX_PAYLOAD {
            return Err(MetalTransportReject::PayloadTooLarge { got: header.payload_len });
        }
        let expected_len = METAL_TRANSPORT_HEADER_BYTES + header.payload_len as usize;
        if frame.len() != expected_len {
            return Err(
                MetalTransportReject::FrameLengthMismatch {
                    expected: expected_len,
                    actual: frame.len(),
                },
            );
        }
        let opcode = match MetalTransportOpcode::from_u16(header.opcode) {
            Some(op) => op,
            None => return Err(MetalTransportReject::UnknownOpcode(header.opcode)),
        };
        if opcode.is_queue_class() {
            return Err(MetalTransportReject::QueueExecutionForbidden(opcode));
        }
        let expected_payload = MetalTransportHeader::payload_size_for(opcode) as usize;
        if header.payload_len as usize != expected_payload {
            return Err(
                MetalTransportReject::PayloadLengthMismatch {
                    expected: expected_payload,
                    actual: header.payload_len as usize,
                },
            );
        }
        if header.flags != 0 {
            return Err(MetalTransportReject::UnknownFlags(header.flags));
        }
        let payload = slice_from(frame, METAL_TRANSPORT_HEADER_BYTES);
        match opcode {
            MetalTransportOpcode::BufferCreate => {
                let body = match BufferCreateShape::decode(payload) {
                    Ok(b) => b,
                    Err(e) => return Err(e),
                };
                match body.validate() {
                    Ok(()) => Ok(MetalTransportShape::BufferCreate(body)),
                    Err(e) => Err(e),
                }
            },
            MetalTransportOpcode::BufferDestroy => {
                let body = match BufferDestroyShape::decode(payload) {
                    Ok(b) => b,
                    Err(e) => return Err(e),
                };
                match body.validate() {
                    Ok(()) => Ok(MetalTransportShape::BufferDestroy(body)),
                    Err(e) => Err(e),
                }
            },
            MetalTransportOpcode::BufferCopy => {
                let body = match BufferCopyShape::decode(payload) {
                    Ok(b) => b,
                    Err(e) => return Err(e),
                };
                match body.validate() {
                    Ok(()) => Ok(MetalTransportShape::BufferCopy(body)),
                    Err(e) => Err(e),
                }
            },
            _ => Err(MetalTransportReject::QueueExecutionForbidden(opcode)),
        }
    }

    /// Encode a shape into a wire frame.
    pub fn encode_shape(shape: MetalTransportShape) -> (r: Vec<u8>)
        ensures
            r@ == shape.spec_frame(),
    {
        let opcode = shape.opcode();
        let mut payload: Vec<u8> = Vec::new();
        match shape {
            MetalTransportShape::BufferCreate(s) => {
                let b = s.encode();
                extend_bytes(&mut payload, &b);
            },
            MetalTransportShape::BufferDestroy(s) => {
                let b = s.encode();
                extend_bytes(&mut payload, &b);
            },
            MetalTransportShape::BufferCopy(s) => {
                let b = s.encode();
                extend_bytes(&mut payload, &b);
            },
        }
        let header = MetalTransportHeader {
            magic: METAL_TRANSPORT_MAGIC,
            version: METAL_TRANSPORT_VERSION,
            opcode: opcode.to_u16(),
            payload_len: payload.len() as u32,
            flags: 0,
        };
        let h = header.encode();
        let mut frame: Vec<u8> = Vec::new();
        extend_bytes(&mut frame, &h);
        extend_bytes(&mut frame, payload.as_slice());
        frame
    }

    /// Always rejects. Valid shapes still do not run (no device, no queue).
    pub fn execute_shape(&self, _shape: MetalTransportShape) -> (r: Result<(), MetalTransportReject>)
        ensures
            r == self.spec_execute_shape(),
            r is Err,
    {
        if self.acceptance.metal_verified || self.acceptance.d10_complete() {
            return Err(MetalTransportReject::AcceptanceUnmet);
        }
        Err(MetalTransportReject::TransportNotExecutable)
    }

    /// Parse then refuse execution — single entry for ingest paths.
    pub fn ingest(&self, frame: &[u8]) -> (r: Result<(), MetalTransportReject>)
        ensures
            r is Err,
            spec_parse_frame(self.spec_acceptance(), frame@) matches Err(e) ==> r
                == Err::<(), MetalTransportReject>(e),
            spec_parse_frame(self.spec_acceptance(), frame@) is Ok ==> r
                == self.spec_execute_shape(),
    {
        let shape = match self.parse_frame(frame) {
            Ok(s) => s,
            Err(e) => return Err(e),
        };
        self.execute_shape(shape)
    }
}

/// Encoding then parsing: every shape that passes its own validation is read
/// back unchanged from the frame `encode_shape` writes for it, on a transport
/// whose acceptance is unmet.
pub proof fn law_encode_then_parse_roundtrip(shape: MetalTransportShape)
    requires
        shape.spec_validate() is Ok,
    ensures
        spec_parse_frame(MetalAcceptanceReport::spec_unmet(), shape.spec_frame()) == Ok::<
            MetalTransportShape,
            MetalTransportReject,
        >(shape),
{
    let payload = shape.spec_payload();
    let op = shape.spec_opcode();
    let hdr = MetalTransportHeader {
        magic: METAL_TRANSPORT_MAGIC,
        version: METAL_TRANSPORT_VERSION,
        opcode: op.spec_to_u16(),
        payload_len: payload.len() as u32,
        flags: 0,
    };
    let h = hdr.spec_encode();
    let frame = shape.spec_frame();
    assert(h.len() == 16);
    assert(frame == h + payload);
    assert(frame.subrange(0, 4) =~= spec_u32_bytes(hdr.magic));
    assert(frame.subrange(4, 6) =~= spec_u16_bytes(hdr.version));
    assert(frame.subrange(6, 8) =~= spec_u16_bytes(hdr.opcode));
    assert(frame.subrange(8, 12) =~= spec_u32_bytes(hdr.payload_len));
    assert(frame.subrange(12, 16) =~= spec_u32_bytes(hdr.flags));
    lemma_u32_roundtrip(hdr.magic, frame, 0);
    lemma_u16_roundtrip(hdr.version, frame, 4);
    lemma_u16_roundtrip(hdr.opcode, frame, 6);
    lemma_u32_roundtrip(hdr.payload_len, frame, 8);
    lemma_u32_roundtrip(hdr.flags, frame, 12);
    assert(MetalTransportHeader::spec_read(frame) == hdr);
    assert(frame.subrange(16, frame.len() as int) =~= payload);
    match shape {
        MetalTransportShape::BufferCreate(s) => {
            let e = s.spec_encode();
            assert(e.subrange(0, 8) =~= spec_u64_bytes(s.size));
            assert(e.subrange(8, 12) =~= spec_u32_bytes(s.alignment));
            assert(e.subrange(12, 16) =~= spec_u32_bytes(s.flags));
            lemma_u64_roundtrip(s.size, e, 0);
            lemma_u32_roundtrip(s.alignment, e, 8);
            lemma_u32_roundtrip(s.flags, e, 12);
            assert(BufferCreateShape::spec_read(e) == s);
        },
        MetalTransportShape::BufferDestroy(s) => {
            let e = s.spec_encode();
            assert(e.subrange(0, 8) =~= spec_u64_bytes(s.handle));
            lemma_u64_roundtrip(s.handle, e, 0);
            assert(BufferDestroyShape::spec_read(e) == s);
        },
        MetalTransportShape::BufferCopy(s) => {
            let e = s.spec_encode();
            assert(e.subrange(0, 8) =~= spec_u64_bytes(s.src_handle));
            assert(e.subrange(8, 16) =~= spec_u64_bytes(s.dst_handle));
            assert(e.subrange(16, 24) =~= spec_u64_bytes(s.src_offset));
            assert(e.subrange(24, 32) =~= spec_u64_bytes(s.dst_offset));
            assert(e.subrange(32, 40) =~= spec_u64_bytes(s.size));
            lemma_u64_roundtrip(s.src_handle, e, 0);
            lemma_u64_roundtrip(s.dst_handle, e, 8);
            lemma_u64_roundtrip(s.src_offset, e, 16);
            lemma_u64_roundtrip(s.dst_offset, e, 24);
            lemma_u64_roundtrip(s.size, e, 32);
            assert(BufferCopyShape::spec_read(e) == s);
        },
    }
}

/// No frame is ever executed: ingesting any byte string, on a transport with
/// any acceptance, ends in a refusal.
pub proof fn law_ingest_never_executes(t: MetalTransport, frame: Seq<u8>)
    ensures
        (match spec_parse_frame(t.spec_acceptance(), frame) {
            Ok(_) => t.spec_execute_shape(),
            Err(e) => Err(e),
        }) is Err,
{
}

/// The bytes of `b` from `start` on.
pub fn slice_from(b: &[u8], start: usize) -> (r: &[u8])
    requires
        start <= b@.len(),
    ensures
        r@ == b@.subrange(start as int, b@.len() as int),
{
    let (_, tail) = b.split_at(start);
    tail
}

} // verus!
