use nextcore_gpu::metal_public_abi::MetalPublicAbi;
use nextcore_gpu::metal_transport::{
    BufferCopyShape, BufferCreateShape, BufferDestroyShape, MetalTransport, MetalTransportHeader,
    MetalTransportOpcode, MetalTransportReject, MetalTransportShape, METAL_TRANSPORT_MAGIC,
    METAL_TRANSPORT_VERSION,
};

fn sample_create() -> MetalTransportShape {
    MetalTransportShape::BufferCreate(BufferCreateShape { size: 256, alignment: 16, flags: 0 })
}

fn sample_copy() -> MetalTransportShape {
    MetalTransportShape::BufferCopy(BufferCopyShape {
        src_handle: 1,
        dst_handle: 2,
        src_offset: 0,
        dst_offset: 0,
        size: 64,
    })
}

#[test]
fn well_formed_buffer_shapes_parse_but_do_not_execute() {
    let transport = MetalTransport::current();
    for shape in [
        sample_create(),
        MetalTransportShape::BufferDestroy(BufferDestroyShape { handle: 7 }),
        sample_copy(),
    ] {
        let frame = MetalTransport::encode_shape(shape);
        let parsed = transport.parse_frame(&frame).expect("shape must parse");
        assert_eq!(parsed, shape);
        let err = transport.execute_shape(parsed).expect_err("must not execute");
        assert_eq!(err, MetalTransportReject::TransportNotExecutable);
        assert_eq!(transport.ingest(&frame), Err(MetalTransportReject::TransportNotExecutable));
    }
}

#[test]
fn queue_opcodes_are_forbidden() {
    let transport = MetalTransport::current();
    for op in [MetalTransportOpcode::QueueSubmit, MetalTransportOpcode::FenceSignal] {
        let header = MetalTransportHeader {
            magic: METAL_TRANSPORT_MAGIC,
            version: METAL_TRANSPORT_VERSION,
            opcode: op.to_u16(),
            payload_len: 0,
            flags: 0,
        };
        let frame = header.encode().to_vec();
        let err = transport.parse_frame(&frame).expect_err("queue must reject");
        assert_eq!(err, MetalTransportReject::QueueExecutionForbidden(op));
    }
}

#[test]
fn reject_paths_for_malformed_frames() {
    let transport = MetalTransport::current();

    assert_eq!(transport.parse_frame(&[0u8; 8]), Err(MetalTransportReject::FrameTooShort));

    let mut bad_magic = MetalTransport::encode_shape(sample_create());
    bad_magic[0..4].copy_from_slice(&0u32.to_le_bytes());
    assert!(matches!(
        transport.parse_frame(&bad_magic),
        Err(MetalTransportReject::InvalidMagic { .. })
    ));

    let mut bad_ver = MetalTransport::encode_shape(sample_create());
    bad_ver[4..6].copy_from_slice(&99u16.to_le_bytes());
    assert_eq!(
        transport.parse_frame(&bad_ver),
        Err(MetalTransportReject::UnsupportedVersion { got: 99 })
    );

    let mut unknown = MetalTransport::encode_shape(sample_create());
    unknown[6..8].copy_from_slice(&0x00FFu16.to_le_bytes());
    assert_eq!(transport.parse_frame(&unknown), Err(MetalTransportReject::UnknownOpcode(0x00FF)));

    assert_eq!(
        BufferCreateShape { size: 0, alignment: 0, flags: 0 }.validate(),
        Err(MetalTransportReject::ZeroSize)
    );

    assert_eq!(
        BufferCopyShape { src_handle: 1, dst_handle: 1, src_offset: 0, dst_offset: 32, size: 64 }
            .validate(),
        Err(MetalTransportReject::SelfCopyOverlap)
    );

    assert_eq!(
        BufferCopyShape {
            src_handle: 1,
            dst_handle: 2,
            src_offset: u64::MAX - 8,
            dst_offset: 0,
            size: 16,
        }
        .validate(),
        Err(MetalTransportReject::SizeOverflow)
    );
}

#[test]
fn fuzz_reject_adversarial_frames() {
    let transport = MetalTransport::current();
    let seeds: &[&[u8]] = &[
        &[],
        &[0xff; 15],
        &[0xff; 16],
        &[0x54, 0x4d, 0x43, 0x4e, 0, 0, 0, 0, 0, 0, 0, 0, 0, 0, 0, 0],
        &[0x54, 0x4d, 0x43, 0x4e, 1, 0, 1, 0, 0xff, 0xff, 0, 0, 0, 0, 0, 0],
    ];
    for seed in seeds {
        let result = transport.ingest(seed);
        assert!(result.is_err(), "adversarial frame must reject: {seed:?}");
    }

    let good = MetalTransport::encode_shape(sample_copy());
    for i in 0..good.len() {
        let mut mutant = good.clone();
        mutant[i] ^= 0x5A;
        assert!(transport.ingest(&mutant).is_err(), "mutant at byte {i} must reject");
    }

    for len in 0..=good.len() + 8 {
        let mut buf = good.clone();
        buf.resize(len, 0xAB);
        assert!(transport.ingest(&buf).is_err(), "length {len} must not execute");
    }
}

#[test]
fn transport_preserves_m2_abi_honesty() {
    let abi = MetalPublicAbi::current();
    let transport = MetalTransport::from_abi(&abi);
    assert!(!transport.acceptance().metal_verified);
    assert!(abi.capabilities().asserts_all_unsupported());
    let frame = MetalTransport::encode_shape(sample_create());
    assert_eq!(transport.ingest(&frame), Err(MetalTransportReject::TransportNotExecutable));
}

#[test]
fn header_round_trips_through_its_encoding() {
    let header = MetalTransportHeader {
        magic: METAL_TRANSPORT_MAGIC,
        version: METAL_TRANSPORT_VERSION,
        opcode: MetalTransportOpcode::BufferCopy.to_u16(),
        payload_len: 40,
        flags: 3,
    };
    let bytes = header.encode();
    assert_eq!(&bytes[0..4], &METAL_TRANSPORT_MAGIC.to_le_bytes());
    assert_eq!(MetalTransportHeader::decode(&bytes), Ok(header));
    assert_eq!(MetalTransportOpcode::from_u16(header.opcode), Some(MetalTransportOpcode::BufferCopy));
    assert_eq!(MetalTransportOpcode::from_u16(0x7777), None);
}

#[test]
fn create_shape_rejects_bad_alignment() {
    assert!(BufferCreateShape { size: 64, alignment: 3, flags: 0 }.validate().is_err());
    assert_eq!(BufferCreateShape { size: 64, alignment: 64, flags: 0 }.validate(), Ok(()));
}

#[test]
fn reject_messages_match_their_display_text() {
    assert_eq!(MetalTransportReject::InvalidMagic { got: 0x1234 }.message(), "invalid transport magic 0x00001234");
    assert_eq!(MetalTransportReject::UnknownOpcode(0xff).message(), "unknown transport opcode 0x00ff");
    assert_eq!(MetalTransportReject::PayloadTooLarge { got: 5000 }.message(), "payload too large (5000 > 4096)");
    assert_eq!(
        MetalTransportReject::FrameLengthMismatch { expected: 56, actual: 57 }.message(),
        "frame length mismatch: expected 56, got 57"
    );
    assert_eq!(
        MetalTransportReject::QueueExecutionForbidden(MetalTransportOpcode::QueueSubmit).message(),
        "queue-class opcode QueueSubmit forbidden at M3"
    );
    assert_eq!(MetalTransportReject::UnknownFlags(0xdead_beef).message(), format!("unknown flags {:#010x}", 0xdead_beefu32));
    assert_eq!(MetalTransportReject::InvalidHandle(0).message(), "invalid handle 0");
}
