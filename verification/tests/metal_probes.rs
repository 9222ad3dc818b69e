use nextcore_gpu::metal_accel_probe::{AccelProbe, AccelProbeBackend, HostAccelPresence, M4_ACCEL_PROBE_DOC_MARKER};
use nextcore_gpu::metal_d10_gates::{
    GuestMetalTranscript, MetalD10Gates, D10_EVIDENCE_ENUMERATE, D10_EVIDENCE_FENCE,
    D10_EVIDENCE_QUEUE, D10_EVIDENCE_RESOURCE, M6_D10_GATES_DOC_MARKER,
};
use nextcore_gpu::metal_guest_probe::{
    GuestMetalProbe, GuestMetalProbeFailureReason, GuestMetalRuntimePresence, HostPlatform,
    M5_GUEST_METAL_PROBE_DOC_MARKER,
};
use nextcore_gpu::metal_public_abi::MetalGuestCapability;

#[test]
fn software_probe_receipt_never_claims_metal() {
    let probe = AccelProbe::current();
    let receipt = probe.run_software_probe();
    assert_eq!(receipt.marker, M4_ACCEL_PROBE_DOC_MARKER);
    assert_eq!(receipt.backend_used, AccelProbeBackend::SoftwareCpu);
    assert!(receipt.compute.ok);
    assert!(receipt.render.ok);
    assert!(receipt.asserts_no_metal_claim());
    assert!(receipt.display_path_freeze_green);
    assert!(!probe.acceptance().metal_verified);
    assert!(!probe.acceptance().d10_complete());
}

#[test]
fn soft_detect_is_honest_without_metal() {
    let probe = AccelProbe::current();
    let presence = probe.soft_detect_host_accel();
    match &presence {
        HostAccelPresence::VulkanFeatureDisabled
        | HostAccelPresence::VulkanUnavailable { .. }
        | HostAccelPresence::VulkanPresent { .. } => {}
    }
    let receipt = probe.run_software_probe();
    assert!(receipt.asserts_no_metal_claim());
    assert_eq!(receipt.host_accel, presence);
}

#[test]
fn m4_preserves_m0_m3_surfaces() {
    let probe = AccelProbe::current();
    assert!(probe.abi().capabilities().asserts_all_unsupported());
    assert!(probe.display_path_freeze().matches_m1_lock());
    let transport = probe.transport();
    assert!(!transport.acceptance().metal_verified);
    let _ = probe.run_software_probe();
    assert!(!probe.acceptance().metal_verified);
}

#[test]
fn vulkan_feature_disabled_reports_absence_path() {
    let presence = AccelProbe::current().soft_detect_host_accel();
    assert_eq!(presence, HostAccelPresence::VulkanFeatureDisabled);
}

#[test]
fn probe_attempt_executes_and_fails_honestly() {
    let harness = GuestMetalProbe::current();
    let receipt = harness.run_probe_attempt();
    assert_eq!(receipt.marker, M5_GUEST_METAL_PROBE_DOC_MARKER);
    assert!(receipt.actual_guest_metal_probe_executed);
    assert!(receipt.asserts_honest_fail_without_device());
    assert!(receipt.display_path_freeze_green);
    assert!(!harness.acceptance().metal_verified);
    assert!(!harness.acceptance().d10_complete());
    assert!(receipt.failure_codes.iter().any(|c| c == "enumeration-not-advertised"));
    assert!(receipt.failure_codes.iter().any(|c| c == "guest-runtime-unavailable"));
}

#[test]
fn m5_preserves_m0_m4_surfaces() {
    let harness = GuestMetalProbe::current();
    assert!(harness.abi().capabilities().asserts_all_unsupported());
    assert!(harness.display_path_freeze().matches_m1_lock());
    assert!(!harness.transport().acceptance().metal_verified);
    let accel = harness.accel_probe().run_software_probe();
    assert!(accel.asserts_no_metal_claim());
    let _ = harness.run_probe_attempt();
    assert!(!harness.acceptance().metal_verified);
    assert!(!harness.abi().capability_supported(MetalGuestCapability::DeviceEnumeration));
}

#[test]
fn failure_reason_codes_are_stable() {
    assert_eq!(GuestMetalProbeFailureReason::NoGuestMetalDevice.code(), "no-metal-device");
    assert_eq!(
        GuestMetalProbeFailureReason::EnumerationNotAdvertised.code(),
        "enumeration-not-advertised"
    );
}

#[test]
fn macos_host_reports_unattached_guest_session() {
    let harness = GuestMetalProbe::on_host(HostPlatform::MacOs);
    match harness.soft_detect_runtime() {
        GuestMetalRuntimePresence::GuestSessionUnavailable { reason } => {
            assert!(reason.contains("Recovery/installed-OS"));
        }
        other => panic!("unexpected presence {other:?}"),
    }
    let receipt = harness.run_probe_attempt();
    assert!(receipt.asserts_honest_fail_without_device());
    let linux = GuestMetalProbe::on_host(HostPlatform::Linux).soft_detect_runtime();
    assert_eq!(linux, GuestMetalRuntimePresence::HostNotGuestMacOs { host_os: "linux".to_string() });
}

#[test]
fn absent_guest_all_gates_fail_and_continues() {
    let eval = MetalD10Gates::current().evaluate_absent_guest_and_continue();
    assert_eq!(eval.marker, M6_D10_GATES_DOC_MARKER);
    assert!(eval.evaluator_executed);
    assert!(eval.asserts_honest_fail_without_guest());
    assert!(eval.display_path_freeze_green);
    assert!(!eval.metal_verified);
    assert!(!eval.acceptance.metal_verified);
    assert!(!eval.d10_complete_in_transcript);
    assert_eq!(eval.gate_checklist.len(), 4);
    assert!(eval.fail_codes.iter().any(|c| c == "absent-guest-transcript"));
}

#[test]
fn fixture_with_all_tokens_stays_unverified() {
    let body = format!(
        "{D10_EVIDENCE_ENUMERATE}\n{D10_EVIDENCE_RESOURCE}\n{D10_EVIDENCE_QUEUE}\n{D10_EVIDENCE_FENCE}\n"
    );
    let report = MetalD10Gates::current()
        .evaluate_transcript(&GuestMetalTranscript::fixture("unit-fixture", &body));
    assert!(report.d10_complete_in_transcript);
    assert!(!report.metal_verified);
    assert!(!report.acceptance.metal_verified);
    assert!(report.fail_codes.iter().any(|c| c == "fixture-or-non-guest-cannot-verify"));
    assert!(report.continued_without_guest_metal);
}

#[test]
fn guest_live_partial_transcript_does_not_verify() {
    let body = format!("{D10_EVIDENCE_ENUMERATE}\n{D10_EVIDENCE_RESOURCE}\n");
    let report = MetalD10Gates::current()
        .evaluate_transcript(&GuestMetalTranscript::guest_live("session-test", &body));
    assert!(!report.d10_complete_in_transcript);
    assert!(!report.metal_verified);
    assert!(report.fail_codes.iter().any(|c| c == "d10-queue-missing"));
    assert!(report.fail_codes.iter().any(|c| c == "d10-fence-missing"));
}

#[test]
fn guest_live_complete_transcript_verifies() {
    let body = format!(
        "guest boot\n{D10_EVIDENCE_ENUMERATE}\n{D10_EVIDENCE_RESOURCE}\n{D10_EVIDENCE_QUEUE}\n{D10_EVIDENCE_FENCE}\n"
    );
    let report = MetalD10Gates::current()
        .evaluate_transcript(&GuestMetalTranscript::guest_live("session-ok", &body));
    assert!(report.d10_complete_in_transcript);
    assert!(report.metal_verified);
    assert!(report.acceptance.metal_verified);
    assert!(report.acceptance.d10_complete());
    assert!(!report.continued_without_guest_metal);
    assert!(report.fail_codes.is_empty());
    assert!(report.gate_checklist.iter().all(|r| r.met));
}

#[test]
fn framebuffer_only_text_is_not_d10() {
    let body = "framebuffer scanout ok\nhost vulkan present\n";
    let report = MetalD10Gates::current()
        .evaluate_transcript(&GuestMetalTranscript::guest_live("fb-only", body));
    assert!(!report.metal_verified);
    assert!(!report.d10_complete_in_transcript);
    assert!(report.gate_checklist.iter().all(|r| !r.met));
}

#[test]
fn m6_preserves_m0_m5_surfaces() {
    let gates = MetalD10Gates::current();
    let _ = gates.evaluate_absent_guest_and_continue();
    assert!(!gates.acceptance().metal_verified);
    assert!(gates.display_path_freeze().matches_m1_lock());
    assert!(gates.abi().capabilities().asserts_all_unsupported());
    assert!(!gates.transport().acceptance().metal_verified);
    let probe = gates.guest_probe().run_probe_attempt();
    assert!(probe.asserts_honest_fail_without_device());
}

#[test]
fn receipt_records_host_vulkan_presence_without_claiming_metal() {
    let presence = HostAccelPresence::VulkanPresent { device_count: 2, primary_name: "gpu".to_string() };
    let receipt = AccelProbe::current().run_software_probe_with(presence.clone());
    assert_eq!(receipt.host_accel, presence);
    assert!(receipt.asserts_no_metal_claim());
    assert_eq!(receipt.compute.detail, "software buffer-copy compute probe passed (non-Metal)");
}
