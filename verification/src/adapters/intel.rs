//! Intel devices known by PCI device id.
use vstd::prelude::*;
use crate::canonical_spec::{GpuCapabilities, GpuVendor, MetalVersion, INTEL_DEFAULT_VRAM};
use super::{spec_profile_matches, GpuAdapter};

verus! {

/// Metal version, video memory and thread count of each known Intel device.
pub open spec fn spec_intel_profile(device_id: u16) -> Option<(MetalVersion, u64, u32)> {
    match device_id {
        0x0166 => Some((MetalVersion::V3_0, (1536 * 1024 * 1024) as u64, 512u32)),
        0x0412 => Some((MetalVersion::V3_0, (2048 * 1024 * 1024) as u64, 512u32)),
        0x5912 => Some((MetalVersion::V3_0, (1536 * 1024 * 1024) as u64, 512u32)),
        _ => None,
    }
}

/// The profile `to_canonical` reports for `device_id`: the known device's
/// profile, else the Intel default (Metal 3.0, default video memory, 512 threads).
pub open spec fn spec_intel_canonical_profile(device_id: u16) -> (MetalVersion, u64, u32) {
    match spec_intel_profile(device_id) {
        Some(p) => p,
        None => (MetalVersion::V3_0, INTEL_DEFAULT_VRAM, 512u32),
    }
}

pub struct IntelAdapter {
    device_id: u16,
}

impl IntelAdapter {
    pub closed spec fn spec_device_id(&self) -> u16 {
        self.device_id
    }

    pub fn new(device_id: u16) -> (r: Self)
        ensures
            r.spec_device_id() == device_id,
    {
        IntelAdapter { device_id }
    }

    /// The capabilities of a known Intel device: tessellation and compute
    /// shaders, no display outputs listed.
    pub fn detect_device(device_id: u16) -> (r: Option<GpuCapabilities>)
        ensures
            r is Some <==> spec_intel_profile(device_id) is Some,
            r matches Some(c) ==> spec_profile_matches(c, GpuVendor::Intel, spec_intel_profile(device_id)->0),
    {
        match device_id {
            0x0166 => Some(GpuCapabilities {
                vendor: GpuVendor::Intel,
                metal_version: MetalVersion::V3_0,
                vram_size: 1536 * 1024 * 1024,
                max_threads: 512,
                has_tessellation: true,
                has_compute_shaders: true,
                display_outputs: Vec::new(),
            }),
            0x0412 => Some(GpuCapabilities {
                vendor: GpuVendor::Intel,
                metal_version: MetalVersion::V3_0,
                vram_size: 2048 * 1024 * 1024,
                max_threads: 512,
                has_tessellation: true,
                has_compute_shaders: true,
                display_outputs: Vec::new(),
            }),
            0x5912 => Some(GpuCapabilities {
                vendor: GpuVendor::Intel,
                metal_version: MetalVersion::V3_0,
                vram_size: 1536 * 1024 * 1024,
                max_threads: 512,
                has_tessellation: true,
                has_compute_shaders: true,
                display_outputs: Vec::new(),
            }),
            _ => None,
        }
    }
}

impl GpuAdapter for IntelAdapter {
    /// Devices are not probed on the bus here.
    fn detect() -> (r: Option<Self>)
        ensures
            r is None,
    {
        None
    }

    /// The known profile of the device, else the vendor's default profile.
    fn to_canonical(&self) -> (r: GpuCapabilities)
        ensures
            spec_profile_matches(r, GpuVendor::Intel, spec_intel_canonical_profile(self.spec_device_id())),
    {
        match Self::detect_device(self.device_id) {
            Some(c) => c,
            None => GpuCapabilities::default_intel(),
        }
    }
}

} // verus!
