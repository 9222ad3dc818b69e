use nextcore_gpu::display_path_freeze::{freeze_under_metal_track, DisplayPathFreeze};
use nextcore_gpu::metal_acceptance::{MetalAcceptanceError, MetalAcceptanceGate, MetalAcceptanceReport};
use nextcore_gpu::metal_public_abi::{MetalAbiReject, MetalGuestCapability, MetalGuestOp, MetalPublicAbi};

#[test]
fn locked_constants_are_window_6_irq_2() {
    let freeze = DisplayPathFreeze::locked();
    assert_eq!(freeze.adp_mmio_window_id, 0x6);
    assert_eq!(freeze.adp_aic_irq_line, 2);
    assert!(freeze.matches_m1_lock());
}

#[test]
fn metal_acceptance_cannot_remap_display_irq() {
    let report = MetalAcceptanceReport::unmet();
    let freeze = DisplayPathFreeze::locked().with_metal_acceptance(&report);
    assert!(freeze.matches_m1_lock());
    assert!(!report.metal_verified);
    assert_eq!(freeze_under_metal_track(), DisplayPathFreeze::locked());
}

#[test]
fn unmet_report_locks_all_gates_false() {
    let report = MetalAcceptanceReport::unmet();
    assert!(!report.device_enumerated);
    assert!(!report.resources_created);
    assert!(!report.command_queue_executed);
    assert!(!report.fences_synchronized);
    assert!(!report.metal_verified);
    assert!(!report.d10_complete());
    assert!(!report.gate_met(MetalAcceptanceGate::DeviceEnumeration));
}

#[test]
fn rejects_metal_verified_without_d10() {
    let err = MetalAcceptanceReport::unmet()
        .with_metal_verified(true)
        .expect_err("synthetic metal_verified must fail");
    assert_eq!(err, MetalAcceptanceError::VerifiedWithoutD10);
}

#[test]
fn complete_report_accepts_verified_flag() {
    let report = MetalAcceptanceReport {
        device_enumerated: true,
        resources_created: true,
        command_queue_executed: true,
        fences_synchronized: true,
        metal_verified: false,
    };
    assert!(report.d10_complete());
    let verified = report.with_metal_verified(true).unwrap();
    assert!(verified.metal_verified);
    assert!(verified.gate_met(MetalAcceptanceGate::FenceSynchronization));
    let partial = MetalAcceptanceReport { fences_synchronized: false, ..report };
    assert!(!partial.d10_complete());
    assert!(partial.with_metal_verified(false).is_ok());
}

#[test]
fn current_abi_advertises_no_capabilities() {
    let abi = MetalPublicAbi::current();
    assert!(abi.capabilities().asserts_all_unsupported());
    assert!(!abi.acceptance().metal_verified);
    for cap in MetalGuestCapability::ALL {
        assert!(!abi.capability_supported(cap));
    }
}

#[test]
fn enumerate_devices_is_explicit_reject() {
    let abi = MetalPublicAbi::current();
    let err = abi
        .execute(MetalGuestOp::EnumerateDevices)
        .expect_err("enumeration must not succeed");
    assert_eq!(err, MetalAbiReject::EnumerationNotAdvertised);
    assert_eq!(abi.reject_enumerate_devices(), MetalAbiReject::EnumerationNotAdvertised);
}

#[test]
fn accel_ops_reject_without_fake_device() {
    let abi = MetalPublicAbi::current();
    let cases = [
        MetalGuestOp::CreateBuffer { size: 64 },
        MetalGuestOp::CreateCommandQueue,
        MetalGuestOp::SubmitCommandBuffer,
        MetalGuestOp::CreateFence,
        MetalGuestOp::WaitFence,
        MetalGuestOp::LoadMetallib,
        MetalGuestOp::DispatchCompute,
        MetalGuestOp::EncodeRender,
        MetalGuestOp::PresentDrawable,
    ];
    for op in cases {
        let err = abi.execute(op).expect_err("unsupported op must reject");
        assert_eq!(err, MetalAbiReject::CapabilityUnsupported(op.required_capability()));
    }
}

#[test]
fn abi_preserves_m1_display_path_freeze() {
    let abi = MetalPublicAbi::current();
    let freeze = abi.display_path_freeze();
    assert!(freeze.matches_m1_lock());
    assert_eq!(freeze.adp_mmio_window_id, 0x6);
    assert_eq!(freeze.adp_aic_irq_line, 2);
}

#[test]
fn capability_names_and_bits_are_distinct() {
    let mut seen = Vec::new();
    for cap in MetalGuestCapability::ALL {
        assert!(!seen.contains(&cap.bit()));
        seen.push(cap.bit());
    }
    assert_eq!(MetalGuestCapability::DeviceEnumeration.name(), "DeviceEnumeration");
    assert_eq!(MetalGuestCapability::PresentDrawable.name(), "PresentDrawable");
}

#[test]
fn reject_and_error_messages() {
    assert_eq!(
        MetalAbiReject::CapabilityUnsupported(MetalGuestCapability::MetallibLoad).message(),
        "Metal capability unsupported: MetallibLoad"
    );
    assert_eq!(
        MetalAbiReject::EnumerationNotAdvertised.message(),
        "device enumeration is not advertised; empty success would imply Metal"
    );
    assert_eq!(
        MetalAcceptanceError::VerifiedWithoutD10.message(),
        "metal_verified requires all Design D10 gates; refusing synthetic success"
    );
}
