//! Non-Metal acceleration probe: an honest host compute/render soft probe
//! that emits a receipt.
//!
//! The probe runs the software CPU path this crate owns (a buffer copy on a
//! [`VirtualMetalDevice`] and a framebuffer fill). Host Vulkan presence is not
//! probed by the library: it reports [`HostAccelPresence::VulkanFeatureDisabled`].
//! Nothing here claims guest Metal, sets `metal_verified`, or registers a
//! guest Metal device.
use vstd::prelude::*;
use crate::canonical_spec::GpuCapabilities;
use crate::display_path_freeze::{freeze_under_metal_track, DisplayPathFreeze};
use crate::framebuffer::{LinearFramebuffer, PixelFormat};
use crate::metal_acceptance::MetalAcceptanceReport;
use crate::metal_public_abi::MetalPublicAbi;
use crate::metal_transport::MetalTransport;
use crate::text::byte_list;
use crate::wire::spec_overwrite;
use crate::virtual_device::{CommandBuffer, GpuCommand, VirtualMetalDevice};

verus! {

/// Machine-checkable marker for the accel probe.
pub const M4_ACCEL_PROBE_DOC_MARKER: &'static str = "M4_ACCEL_PROBE:non-metal-host-receipt";

/// Which non-Metal path the probe exercised or detected.
#[derive(Debug, Clone, Copy, PartialEq, Eq, Structural)]
pub enum AccelProbeBackend {
    /// Host CPU software path (buffer copy + framebuffer fill). Always usable.
    SoftwareCpu,
    /// Soft host-Vulkan detection path (not Metal; may report absent).
    HostVulkanSoft,
}

/// Honest host acceleration presence.
#[derive(Debug, Clone, PartialEq, Eq)]
pub enum HostAccelPresence {
    /// Host Vulkan soft probe not built in.
    VulkanFeatureDisabled,
    /// Loader/device soft probe found nothing usable.
    VulkanUnavailable { reason: String },
    /// Soft probe observed at least one host Vulkan physical device.
    /// Does not imply guest Metal or `metal_verified`.
    VulkanPresent { device_count: usize, primary_name: String },
}

/// Outcome of one compute or render soft probe step.
#[derive(Debug, Clone, PartialEq, Eq)]
pub struct ProbeStepOutcome {
    pub ok: bool,
    pub detail: String,
}

/// Immutable receipt from a non-Metal accel probe run.
#[derive(Debug, Clone, PartialEq, Eq)]
pub struct AccelProbeReceipt {
    pub marker: String,
    pub backend_used: AccelProbeBackend,
    pub host_accel: HostAccelPresence,
    pub compute: ProbeStepOutcome,
    pub render: ProbeStepOutcome,
    /// Always false: the probe is explicitly non-Metal.
    pub metal_claimed: bool,
    /// Always false: Design D10 unmet.
    pub metal_verified: bool,
    /// Always false: no guest Metal device registration.
    pub guest_metal_device: bool,
    /// The display-path freeze still holds under this probe.
    pub display_path_freeze_green: bool,
}

impl AccelProbeReceipt {
    pub open spec fn spec_no_metal_claim(&self) -> bool {
        !self.metal_claimed && !self.metal_verified && !self.guest_metal_device
    }

    /// Contract helper: the probe must never promote Metal acceptance.
    pub fn asserts_no_metal_claim(&self) -> (r: bool)
        ensures
            r == self.spec_no_metal_claim(),
    {
        !self.metal_claimed && !self.metal_verified && !self.guest_metal_device
    }
}

/// Non-Metal acceleration probe handle. Composes the ABI surfaces read-only.
#[derive(Debug, Clone)]
pub struct AccelProbe {
    abi: MetalPublicAbi,
}

impl AccelProbe {
    pub closed spec fn spec_abi(&self) -> MetalPublicAbi {
        self.abi
    }

    /// Honest handle: current ABI, unmet acceptance, frozen display path.
    pub fn current() -> (r: Self)
        ensures
            r.spec_abi().spec_acceptance() == MetalAcceptanceReport::spec_unmet(),
            r.spec_abi().spec_capabilities().spec_bits() == 0,
    {
        AccelProbe { abi: MetalPublicAbi::current() }
    }

    pub fn abi(&self) -> (r: &MetalPublicAbi)
        ensures
            *r == self.spec_abi(),
    {
        &self.abi
    }

    pub fn acceptance(&self) -> (r: &MetalAcceptanceReport)
        ensures
            *r == self.spec_abi().spec_acceptance(),
    {
        self.abi.acceptance()
    }

    pub fn display_path_freeze(&self) -> (r: DisplayPathFreeze)
        ensures
            r == DisplayPathFreeze::spec_locked(),
    {
        self.abi.display_path_freeze()
    }

    pub fn transport(&self) -> (r: MetalTransport)
        ensures
            r.spec_acceptance() == self.spec_abi().spec_acceptance(),
    {
        MetalTransport::from_abi(&self.abi)
    }

    /// Host acceleration presence as this library knows it: the Vulkan soft
    /// probe is not part of it, so presence is never claimed here.
    pub fn soft_detect_host_accel(&self) -> (r: HostAccelPresence)
        ensures
            r is VulkanFeatureDisabled,
    {
        HostAccelPresence::VulkanFeatureDisabled
    }

    /// Backend family used for soft host-accel detection (not Metal).
    pub fn soft_detect_backend_family(&self) -> (r: AccelProbeBackend)
        ensures
            r == AccelProbeBackend::HostVulkanSoft,
    {
        AccelProbeBackend::HostVulkanSoft
    }

    /// Runs the software compute and render probes and emits a receipt. Both
    /// steps pass; the receipt never claims Metal.
    pub fn run_software_probe(&self) -> (r: AccelProbeReceipt)
        ensures
            r.marker@ == M4_ACCEL_PROBE_DOC_MARKER@,
            r.backend_used == AccelProbeBackend::SoftwareCpu,
            r.host_accel is VulkanFeatureDisabled,
            r.compute.ok,
            r.compute.detail@ == "software buffer-copy compute probe passed (non-Metal)"@,
            r.render.ok,
            r.render.detail@ == "software framebuffer fill render probe passed (non-Metal)"@,
            r.spec_no_metal_claim(),
            r.display_path_freeze_green,
    {
        let host_accel = self.soft_detect_host_accel();
        self.run_software_probe_with(host_accel)
    }

    /// The software probe receipt, recording `host_accel` as what a host-side
    /// soft probe found. Whatever it found, the receipt never claims Metal.
    pub fn run_software_probe_with(&self, host_accel: HostAccelPresence) -> (r: AccelProbeReceipt)
        ensures
            r.marker@ == M4_ACCEL_PROBE_DOC_MARKER@,
            r.backend_used == AccelProbeBackend::SoftwareCpu,
            r.host_accel == host_accel,
            r.compute.ok,
            r.compute.detail@ == "software buffer-copy compute probe passed (non-Metal)"@,
            r.render.ok,
            r.render.detail@ == "software framebuffer fill render probe passed (non-Metal)"@,
            r.spec_no_metal_claim(),
            r.display_path_freeze_green,
    {
        let compute = run_software_compute_probe();
        let render = run_software_render_probe();
        let freeze = freeze_under_metal_track().with_metal_acceptance(self.acceptance());
        AccelProbeReceipt {
            marker: String::from_str(M4_ACCEL_PROBE_DOC_MARKER),
            backend_used: AccelProbeBackend::SoftwareCpu,
            host_accel,
            compute,
            render,
            metal_claimed: false,
            metal_verified: false,
            guest_metal_device: false,
            display_path_freeze_green: freeze.matches_m1_lock(),
        }
    }
}

fn outcome(ok: bool, detail: &str) -> (r: ProbeStepOutcome)
    ensures
        r.ok == ok,
        r.detail@ == detail@,
{
    ProbeStepOutcome { ok, detail: String::from_str(detail) }
}

fn outcome_with(ok: bool, prefix: &str, tail: String) -> (r: ProbeStepOutcome)
    ensures
        r.ok == ok,
        r.detail@ == prefix@ + tail@,
{
    let mut detail = String::from_str(prefix);
    detail.append(tail.as_str());
    ProbeStepOutcome { ok, detail }
}

/// Copies a 32-byte pattern between two buffers of a software device and
/// checks the copy.
fn run_software_compute_probe() -> (r: ProbeStepOutcome)
    ensures
        r.ok,
        r.detail@ == "software buffer-copy compute probe passed (non-Metal)"@,
{
    let mut device = VirtualMetalDevice::new(GpuCapabilities::default_amd());
    if device.supports_metal() {
        return outcome(false, "VirtualMetalDevice unexpectedly claimed Metal");
    }
    let src = device.allocate_buffer(32);
    let dst = device.allocate_buffer(32);
    let mut pattern: Vec<u8> = Vec::new();
    let mut v: u8 = 0;
    while v < 32
        invariant
            v <= 32,
            pattern@.len() == v,
        decreases 32 - v,
    {
        pattern.push(v);
        v = v + 1;
    }
    let ghost zeros = Seq::new(32, |i: int| 0u8);
    assert(src.host_ptr@ =~= zeros);
    assert(dst.host_ptr@ =~= zeros);
    if device.memory.write(src.handle, 0, pattern.as_slice()).is_err() {
        return outcome(false, "software compute seed write failed");
    }
    assert(spec_overwrite(zeros, 0, pattern@) =~= pattern@);
    let ghost seeded = device.memory.spec_buffers();
    assert(seeded[src.handle] == pattern@);
    assert(seeded[dst.handle] == zeros);
    let mut cmds: Vec<GpuCommand> = Vec::new();
    cmds.push(GpuCommand::CopyBuffer { src: src.handle, dst: dst.handle, size: 32 });
    let ghost cs = cmds@;
    assert(crate::virtual_device::spec_command_fault(seeded, cs[0]) is None);
    let copied = device.write_command_buffer(CommandBuffer { cmds });
    match copied {
        Ok(()) => {
            proof {
                assert(crate::virtual_device::spec_run_copies(seeded, cs, 0) == seeded);
                assert(pattern@.subrange(0, 32) =~= pattern@);
                assert(spec_overwrite(zeros, 0, pattern@) =~= pattern@);
            }
            match device.memory.read(dst.handle, 0, 32) {
                Ok(got) => {
                    assert(got@ =~= pattern@);
                    if got == pattern {
                        outcome(true, "software buffer-copy compute probe passed (non-Metal)")
                    } else {
                        outcome(false, "software buffer-copy readback mismatch")
                    }
                },
                Err(e) => outcome_with(false, "software buffer-copy readback failed: ", e.message()),
            }
        },
        Err(e) => outcome_with(false, "software buffer-copy failed: ", e.message()),
    }
}

/// Clears an 8x8 frame, fills a 4x4 square red and reads a pixel inside it.
fn run_software_render_probe() -> (r: ProbeStepOutcome)
    ensures
        r.ok,
        r.detail@ == "software framebuffer fill render probe passed (non-Metal)"@,
{
    let mut fb = LinearFramebuffer::new(8, 8, PixelFormat::Rgba8);
    fb.clear([0, 0, 0, 255]);
    match fb.fill_rect(2, 2, 4, 4, [255, 0, 0, 255]) {
        Ok(()) => {},
        Err(e) => {
            return outcome_with(false, "software fill_rect failed: ", e.message());
        },
    }
    match fb.get_pixel(3, 3) {
        Ok(px) => {
            if px[0] == 255 && px[1] == 0 && px[2] == 0 && px[3] == 255 {
                outcome(true, "software framebuffer fill render probe passed (non-Metal)")
            } else {
                outcome_with(false, "software render pixel mismatch: ", byte_list(&px))
            }
        },
        Err(e) => outcome_with(false, "software render get_pixel failed: ", e.message()),
    }
}

} // verus!
