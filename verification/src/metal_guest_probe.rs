//! Guest Metal probe harness.
//!
//! Attempts a guest Metal probe and records that it ran together with
//! structured failure reasons. Without a guest Metal device the attempt fails
//! honestly: it never passes, never sets `metal_verified` and never invents
//! enumeration success.
//!
//! The harness knows the host platform only through the [`HostPlatform`] it
//! is built with; [`GuestMetalProbe::current`] knows none and reports the host
//! as `unknown`.
use vstd::prelude::*;
use crate::canonical_spec::GpuCapabilities;
use crate::display_path_freeze::{freeze_under_metal_track, DisplayPathFreeze};
use crate::metal_accel_probe::AccelProbe;
use crate::metal_acceptance::MetalAcceptanceReport;
use crate::metal_public_abi::{MetalAbiReject, MetalGuestCapability, MetalGuestOp, MetalPublicAbi};
use crate::metal_transport::MetalTransport;
use crate::text::str_eq;
use crate::virtual_device::VirtualMetalDevice;

verus! {

/// Machine-checkable marker for the guest Metal probe harness.
pub const M5_GUEST_METAL_PROBE_DOC_MARKER: &'static str = "M5_GUEST_METAL_PROBE:executed-fail-reasons";

/// The operating system the harness runs on.
#[derive(Debug, Clone, Copy, PartialEq, Eq, Structural)]
pub enum HostPlatform {
    MacOs,
    Windows,
    Linux,
    Unknown,
}

/// Where the harness believes a guest Metal runtime could exist.
#[derive(Debug, Clone, PartialEq, Eq)]
pub enum GuestMetalRuntimePresence {
    /// The host process is not a macOS guest; Metal.framework is unavailable here.
    HostNotGuestMacOs { host_os: String },
    /// A guest session / Recovery Terminal context is not attached to this process.
    GuestSessionUnavailable { reason: String },
    /// Guest Metal stack would be reachable, but no Metal-class device is present.
    /// Reserved for in-guest runs; never claimed by this harness.
    FrameworkPresentNoDevice,
}

/// Structured failure reason recorded when a probe attempt does not satisfy D10.
#[derive(Debug, Clone, PartialEq, Eq)]
pub enum GuestMetalProbeFailureReason {
    NoGuestMetalDevice,
    EnumerationNotAdvertised,
    CapabilityUnsupported { capability: String },
    GuestRuntimeUnavailable { detail: String },
    VirtualDeviceDoesNotSupportMetal,
    AcceptanceUnmet,
    PassForbiddenWithoutGuestDevice,
}

impl GuestMetalProbeFailureReason {
    pub open spec fn spec_code(&self) -> Seq<char> {
        match self {
            GuestMetalProbeFailureReason::NoGuestMetalDevice => "no-metal-device"@,
            GuestMetalProbeFailureReason::EnumerationNotAdvertised => "enumeration-not-advertised"@,
            GuestMetalProbeFailureReason::CapabilityUnsupported { .. } => "capability-unsupported"@,
            GuestMetalProbeFailureReason::GuestRuntimeUnavailable { .. } => "guest-runtime-unavailable"@,
            GuestMetalProbeFailureReason::VirtualDeviceDoesNotSupportMetal => "virtual-device-no-metal"@,
            GuestMetalProbeFailureReason::AcceptanceUnmet => "acceptance-unmet"@,
            GuestMetalProbeFailureReason::PassForbiddenWithoutGuestDevice => "pass-forbidden-without-guest-device"@,
        }
    }

    /// Stable machine id.
    pub fn code(&self) -> (r: &'static str)
        ensures
            r@ == self.spec_code(),
    {
        match self {
            GuestMetalProbeFailureReason::NoGuestMetalDevice => "no-metal-device",
            GuestMetalProbeFailureReason::EnumerationNotAdvertised => "enumeration-not-advertised",
            GuestMetalProbeFailureReason::CapabilityUnsupported { .. } => "capability-unsupported",
            GuestMetalProbeFailureReason::GuestRuntimeUnavailable { .. } => "guest-runtime-unavailable",
            GuestMetalProbeFailureReason::VirtualDeviceDoesNotSupportMetal => "virtual-device-no-metal",
            GuestMetalProbeFailureReason::AcceptanceUnmet => "acceptance-unmet",
            GuestMetalProbeFailureReason::PassForbiddenWithoutGuestDevice => "pass-forbidden-without-guest-device",
        }
    }
}

/// Immutable receipt from one guest Metal probe attempt.
#[derive(Debug, Clone, PartialEq, Eq)]
pub struct GuestMetalProbeReceipt {
    pub marker: String,
    /// The harness ran the probe attempt (even on failure).
    pub actual_guest_metal_probe_executed: bool,
    pub runtime_presence: GuestMetalRuntimePresence,
    /// Ordered failure reasons (non-empty when `probe_passed` is false).
    pub failure_reasons: Vec<GuestMetalProbeFailureReason>,
    /// Machine ids mirroring `failure_reasons`.
    pub failure_codes: Vec<String>,
    pub probe_passed: bool,
    pub metal_verified: bool,
    pub guest_metal_device: bool,
    pub display_path_freeze_green: bool,
}

/// Whether `code` is one of `codes`.
pub fn has_code(codes: &Vec<String>, code: &str) -> (r: bool)
    ensures
        r == exists|i: int| 0 <= i < codes@.len() && (#[trigger] codes@[i])@ == code@,
{
    let mut i: usize = 0;
    while i < codes.len()
        invariant
            i <= codes@.len(),
            forall|k: int| 0 <= k < i ==> (#[trigger] codes@[k])@ != code@,
        decreases codes@.len() - i,
    {
        if str_eq(codes[i].as_str(), code) {
            return true;
        }
        i = i + 1;
    }
    false
}

impl GuestMetalProbeReceipt {
    pub open spec fn spec_honest_fail(&self) -> bool {
        &&& self.actual_guest_metal_probe_executed
        &&& !self.probe_passed
        &&& !self.metal_verified
        &&& !self.guest_metal_device
        &&& self.failure_reasons@.len() > 0
        &&& exists|i: int| 0 <= i < self.failure_codes@.len() && (#[trigger] self.failure_codes@[i])@
            == "no-metal-device"@
        &&& exists|i: int| 0 <= i < self.failure_codes@.len() && (#[trigger] self.failure_codes@[i])@
            == "pass-forbidden-without-guest-device"@
    }

    /// Contract helper: the harness never promotes Metal acceptance or fakes a pass.
    pub fn asserts_honest_fail_without_device(&self) -> (r: bool)
        ensures
            r == self.spec_honest_fail(),
    {
        self.actual_guest_metal_probe_executed && !self.probe_passed && !self.metal_verified
            && !self.guest_metal_device && self.failure_reasons.len() > 0 && has_code(
            &self.failure_codes,
            "no-metal-device",
        ) && has_code(&self.failure_codes, "pass-forbidden-without-guest-device")
    }
}

/// The host platform's short name.
pub open spec fn spec_host_os_name(p: HostPlatform) -> Seq<char> {
    match p {
        HostPlatform::MacOs => "macos"@,
        HostPlatform::Windows => "windows"@,
        HostPlatform::Linux => "linux"@,
        HostPlatform::Unknown => "unknown"@,
    }
}

/// The codes of the reasons a probe on the honest surface records.
pub open spec fn spec_honest_codes() -> Seq<Seq<char>> {
    seq![
        "guest-runtime-unavailable"@,
        "enumeration-not-advertised"@,
        "capability-unsupported"@,
        "virtual-device-no-metal"@,
        "no-metal-device"@,
        "acceptance-unmet"@,
        "pass-forbidden-without-guest-device"@,
    ]
}

/// Guest Metal probe harness. Composes the ABI surfaces read-only.
#[derive(Debug, Clone)]
pub struct GuestMetalProbe {
    abi: MetalPublicAbi,
    host: HostPlatform,
}

impl GuestMetalProbe {
    pub closed spec fn spec_abi(&self) -> MetalPublicAbi {
        self.abi
    }

    pub closed spec fn spec_host(&self) -> HostPlatform {
        self.host
    }

    /// Honest handle on a host the library cannot name.
    pub fn current() -> (r: Self)
        ensures
            r.spec_abi().spec_acceptance() == MetalAcceptanceReport::spec_unmet(),
            r.spec_abi().spec_capabilities().spec_bits() == 0,
            r.spec_host() == HostPlatform::Unknown,
    {
        GuestMetalProbe { abi: MetalPublicAbi::current(), host: HostPlatform::Unknown }
    }

    /// Honest handle on a known host platform.
    pub fn on_host(host: HostPlatform) -> (r: Self)
        ensures
            r.spec_abi().spec_acceptance() == MetalAcceptanceReport::spec_unmet(),
            r.spec_abi().spec_capabilities().spec_bits() == 0,
            r.spec_host() == host,
    {
        GuestMetalProbe { abi: MetalPublicAbi::current(), host }
    }

    pub fn abi(&self) -> (r: &MetalPublicAbi)
        ensures
            *r == self.spec_abi(),
    {
        &self.abi
    }

    pub fn acceptance(&self) -> (r: &MetalAcceptanceReport)
        ensures
            *r == self.spec_abi().spec_acceptance(),
    {
        self.abi.acceptance()
    }

    pub fn display_path_freeze(&self) -> (r: DisplayPathFreeze)
        ensures
            r == DisplayPathFreeze::spec_locked(),
    {
        self.abi.display_path_freeze()
    }

    pub fn transport(&self) -> (r: MetalTransport)
        ensures
            r.spec_acceptance() == self.spec_abi().spec_acceptance(),
    {
        MetalTransport::from_abi(&self.abi)
    }

    pub fn accel_probe(&self) -> (r: AccelProbe)
        ensures
            r.spec_abi().spec_acceptance() == MetalAcceptanceReport::spec_unmet(),
            r.spec_abi().spec_capabilities().spec_bits() == 0,
    {
        AccelProbe::current()
    }

    /// Whether this process could be a macOS guest Metal context: on macOS the
    /// process is not an attached guest session; elsewhere it is not macOS.
    pub fn soft_detect_runtime(&self) -> (r: GuestMetalRuntimePresence)
        ensures
            self.spec_host() == HostPlatform::MacOs ==> (r matches GuestMetalRuntimePresence::GuestSessionUnavailable { reason }
                && reason@
                == "macos host process is not an attached Recovery/installed-OS guest Metal session"@),
            self.spec_host() != HostPlatform::MacOs ==> (r matches GuestMetalRuntimePresence::HostNotGuestMacOs { host_os }
                && host_os@ == spec_host_os_name(self.spec_host())),
    {
        match self.host {
            HostPlatform::MacOs => GuestMetalRuntimePresence::GuestSessionUnavailable {
                reason: String::from_str(
                    "macos host process is not an attached Recovery/installed-OS guest Metal session",
                ),
            },
            HostPlatform::Windows => GuestMetalRuntimePresence::HostNotGuestMacOs {
                host_os: String::from_str("windows"),
            },
            HostPlatform::Linux => GuestMetalRuntimePresence::HostNotGuestMacOs {
                host_os: String::from_str("linux"),
            },
            HostPlatform::Unknown => GuestMetalRuntimePresence::HostNotGuestMacOs {
                host_os: String::from_str("unknown"),
            },
        }
    }

    /// Runs the guest Metal probe attempt and emits a receipt. The attempt
    /// always counts as executed and never passes; on the honest surface it
    /// records, in order: the unavailable guest runtime, the refused
    /// enumeration, the unsupported resource allocation, the non-Metal
    /// software device, the missing guest device, the unmet acceptance, and
    /// that a pass is forbidden without a guest device.
    /// The probe composes the honest surface: unmet acceptance and no capability.
    pub open spec fn spec_honest_surface(&self) -> bool {
        self.spec_abi().spec_acceptance() == MetalAcceptanceReport::spec_unmet()
            && self.spec_abi().spec_capabilities().spec_bits() == 0
    }

    pub fn run_probe_attempt(&self) -> (r: GuestMetalProbeReceipt)
        ensures
            r.marker@ == M5_GUEST_METAL_PROBE_DOC_MARKER@,
            r.actual_guest_metal_probe_executed,
            !r.probe_passed,
            !r.metal_verified,
            !r.guest_metal_device,
            r.display_path_freeze_green,
            r.failure_codes@.len() == r.failure_reasons@.len(),
            forall|i: int| 0 <= i < r.failure_reasons@.len() ==> (#[trigger] r.failure_codes@[i])@
                == r.failure_reasons@[i].spec_code(),
            r.failure_reasons@.len() > 0,
            r.failure_reasons@.last() == GuestMetalProbeFailureReason::PassForbiddenWithoutGuestDevice,
            self.spec_host() == HostPlatform::MacOs ==> {
                &&& r.runtime_presence matches GuestMetalRuntimePresence::GuestSessionUnavailable { reason }
                    && reason@ == "macos host process is not an attached Recovery/installed-OS guest Metal session"@
                &&& r.failure_reasons@[0] matches GuestMetalProbeFailureReason::GuestRuntimeUnavailable { detail }
                    && detail@ == "macos host process is not an attached Recovery/installed-OS guest Metal session"@
            },
            self.spec_host() != HostPlatform::MacOs ==> {
                &&& r.runtime_presence matches GuestMetalRuntimePresence::HostNotGuestMacOs { host_os }
                    && host_os@ == spec_host_os_name(self.spec_host())
                &&& r.failure_reasons@[0] matches GuestMetalProbeFailureReason::GuestRuntimeUnavailable { detail }
                    && detail@ == "host_os="@ + spec_host_os_name(self.spec_host())
                    + "; in-process Metal.framework / Recovery Terminal unavailable"@
            },
            self.spec_honest_surface() ==> r.failure_codes@.len() == 7,
            self.spec_honest_surface() ==> forall|i: int|
                0 <= i < 7 ==> (#[trigger] r.failure_codes@[i])@ == spec_honest_codes()[i],
            self.spec_honest_surface() ==> (r.failure_reasons@[2] matches GuestMetalProbeFailureReason::CapabilityUnsupported { capability }
                && capability@ == "ResourceAllocation"@),
            self.spec_honest_surface() ==> r.spec_honest_fail(),
    {
        let runtime_presence = self.soft_detect_runtime();
        let mut failure_reasons: Vec<GuestMetalProbeFailureReason> = Vec::new();
        let ghost honest = self.spec_abi().spec_acceptance() == MetalAcceptanceReport::spec_unmet()
            && self.spec_abi().spec_capabilities().spec_bits() == 0;
        proof {
            if honest {
                crate::metal_public_abi::law_current_abi_rejects_every_op(
                    self.spec_abi(),
                    MetalGuestOp::CreateBuffer { size: 64 },
                );
                crate::metal_public_abi::law_current_abi_rejects_every_op(
                    self.spec_abi(),
                    MetalGuestOp::EnumerateDevices,
                );
            }
        }
        match &runtime_presence {
            GuestMetalRuntimePresence::HostNotGuestMacOs { host_os } => {
                let mut detail = String::from_str("host_os=");
                detail.append(host_os.as_str());
                detail.append("; in-process Metal.framework / Recovery Terminal unavailable");
                failure_reasons.push(GuestMetalProbeFailureReason::GuestRuntimeUnavailable { detail });
            },
            GuestMetalRuntimePresence::GuestSessionUnavailable { reason } => {
                failure_reasons.push(
                    GuestMetalProbeFailureReason::GuestRuntimeUnavailable { detail: reason.clone() },
                );
            },
            GuestMetalRuntimePresence::FrameworkPresentNoDevice => {},
        }
        assert(failure_reasons@.len() == 1);
        let ghost first = failure_reasons@[0];
        match self.abi.execute(MetalGuestOp::EnumerateDevices) {
            Ok(()) => {
                failure_reasons.push(GuestMetalProbeFailureReason::PassForbiddenWithoutGuestDevice);
            },
            Err(MetalAbiReject::EnumerationNotAdvertised) => {
                failure_reasons.push(GuestMetalProbeFailureReason::EnumerationNotAdvertised);
            },
            Err(MetalAbiReject::NoGuestMetalDevice) => {
                failure_reasons.push(GuestMetalProbeFailureReason::NoGuestMetalDevice);
            },
            Err(MetalAbiReject::CapabilityUnsupported(cap)) => {
                failure_reasons.push(
                    GuestMetalProbeFailureReason::CapabilityUnsupported {
                        capability: String::from_str(cap.name()),
                    },
                );
            },
            Err(MetalAbiReject::AcceptanceUnmet) => {
                failure_reasons.push(GuestMetalProbeFailureReason::AcceptanceUnmet);
            },
        }
        match self.abi.execute(MetalGuestOp::CreateBuffer { size: 64 }) {
            Ok(()) => {
                failure_reasons.push(GuestMetalProbeFailureReason::PassForbiddenWithoutGuestDevice);
            },
            Err(MetalAbiReject::CapabilityUnsupported(cap)) => {
                failure_reasons.push(
                    GuestMetalProbeFailureReason::CapabilityUnsupported {
                        capability: String::from_str(cap.name()),
                    },
                );
            },
            Err(MetalAbiReject::NoGuestMetalDevice) => {
                if !has_no_device(&failure_reasons) {
                    failure_reasons.push(GuestMetalProbeFailureReason::NoGuestMetalDevice);
                }
            },
            Err(MetalAbiReject::EnumerationNotAdvertised) => {
                failure_reasons.push(GuestMetalProbeFailureReason::EnumerationNotAdvertised);
            },
            Err(MetalAbiReject::AcceptanceUnmet) => {
                failure_reasons.push(GuestMetalProbeFailureReason::AcceptanceUnmet);
            },
        }
        assert(honest ==> failure_reasons@.len() == 3);
        assert(honest ==> failure_reasons@[1] is EnumerationNotAdvertised);
        assert(honest ==> (failure_reasons@[2] matches GuestMetalProbeFailureReason::CapabilityUnsupported { capability }
            && capability@ == "ResourceAllocation"@));
        assert(honest ==> failure_reasons@[0] is GuestRuntimeUnavailable);
        let vdev = VirtualMetalDevice::new(GpuCapabilities::default_amd());
        if vdev.supports_metal() {
            failure_reasons.push(GuestMetalProbeFailureReason::PassForbiddenWithoutGuestDevice);
        } else {
            failure_reasons.push(GuestMetalProbeFailureReason::VirtualDeviceDoesNotSupportMetal);
            if !has_no_device(&failure_reasons) {
                failure_reasons.push(GuestMetalProbeFailureReason::NoGuestMetalDevice);
            }
        }
        assert(honest ==> failure_reasons@.len() == 5 && failure_reasons@[3] is VirtualDeviceDoesNotSupportMetal
            && failure_reasons@[4] is NoGuestMetalDevice && failure_reasons@[2] is CapabilityUnsupported
            && failure_reasons@[1] is EnumerationNotAdvertised && failure_reasons@[0] is GuestRuntimeUnavailable);
        let acceptance = self.acceptance();
        if !acceptance.d10_complete() || acceptance.metal_verified {
            if !acceptance.d10_complete() {
                failure_reasons.push(GuestMetalProbeFailureReason::AcceptanceUnmet);
            }
        }
        failure_reasons.push(GuestMetalProbeFailureReason::PassForbiddenWithoutGuestDevice);
        assert(failure_reasons@[0] == first);
        let mut failure_codes: Vec<String> = Vec::new();
        let mut i: usize = 0;
        while i < failure_reasons.len()
            invariant
                i <= failure_reasons@.len(),
                failure_codes@.len() == i,
                forall|k: int| 0 <= k < i ==> (#[trigger] failure_codes@[k])@
                    == failure_reasons@[k].spec_code(),
            decreases failure_reasons@.len() - i,
        {
            failure_codes.push(String::from_str(failure_reasons[i].code()));
            i = i + 1;
        }
        proof {
            if honest {
                assert(failure_reasons@.len() == 7);
                assert(failure_reasons@[5] is AcceptanceUnmet);
                reveal_strlit("no-metal-device");
                reveal_strlit("pass-forbidden-without-guest-device");
                assert(failure_codes@[4]@ == "no-metal-device"@);
                assert(failure_codes@[6]@ == "pass-forbidden-without-guest-device"@);
            }
        }
        let freeze = freeze_under_metal_track().with_metal_acceptance(self.acceptance());
        let r = GuestMetalProbeReceipt {
            marker: String::from_str(M5_GUEST_METAL_PROBE_DOC_MARKER),
            actual_guest_metal_probe_executed: true,
            runtime_presence,
            failure_reasons,
            failure_codes,
            probe_passed: false,
            metal_verified: false,
            guest_metal_device: false,
            display_path_freeze_green: freeze.matches_m1_lock(),
        };
        proof {
            if honest {
                assert(r.failure_codes@[4]@ == "no-metal-device"@);
                assert(r.failure_codes@[6]@ == "pass-forbidden-without-guest-device"@);
                assert(r.spec_honest_fail());
            }
        }
        r
    }
}

/// Whether `reasons` already records a missing guest device.
fn has_no_device(reasons: &Vec<GuestMetalProbeFailureReason>) -> (r: bool)
    ensures
        r == exists|i: int| 0 <= i < reasons@.len() && (#[trigger] reasons@[i]) is NoGuestMetalDevice,
{
    let mut i: usize = 0;
    while i < reasons.len()
        invariant
            i <= reasons@.len(),
            forall|k: int| 0 <= k < i ==> !((#[trigger] reasons@[k]) is NoGuestMetalDevice),
        decreases reasons@.len() - i,
    {
        if let GuestMetalProbeFailureReason::NoGuestMetalDevice = reasons[i] {
            return true;
        }
        i = i + 1;
    }
    false
}

} // verus!
