//! AMD devices known by PCI device id.
use vstd::prelude::*;
use crate::canonical_spec::{GpuCapabilities, GpuVendor, MetalVersion, AMD_DEFAULT_VRAM};
use super::{spec_profile_matches, GpuAdapter};

verus! {

/// Metal version, video memory and thread count of each known AMD device.
pub open spec fn spec_amd_profile(device_id: u16) -> Option<(MetalVersion, u64, u32)> {
    match device_id {
        0x67DF => Some((MetalVersion::V3_1, (8192 * 1024 * 1024) as u64, 1024u32)),
        0x67C7 => Some((MetalVersion::V3_1, (4096 * 1024 * 1024) as u64, 1024u32)),
        0x687F => Some((MetalVersion::V3_1, (8192 * 1024 * 1024) as u64, 2048u32)),
        _ => None,
    }
}

/// The profile `to_canonical` reports for `device_id`: the known device's
/// profile, else the AMD default (Metal 3.1, default video memory, 1024 threads).
pub open spec fn spec_amd_canonical_profile(device_id: u16) -> (MetalVersion, u64, u32) {
    match spec_amd_profile(device_id) {
        Some(p) => p,
        None => (MetalVersion::V3_1, AMD_DEFAULT_VRAM, 1024u32),
    }
}

pub struct AmdAdapter {
    device_id: u16,
}

impl AmdAdapter {
    pub closed spec fn spec_device_id(&self) -> u16 {
        self.device_id
    }

    pub fn new(device_id: u16) -> (r: Self)
        ensures
            r.spec_device_id() == device_id,
    {
        AmdAdapter { device_id }
    }

    /// The capabilities of a known AMD device: tessellation and compute
    /// shaders, no display outputs listed.
    pub fn detect_device(device_id: u16) -> (r: Option<GpuCapabilities>)
        ensures
            r is Some <==> spec_amd_profile(device_id) is Some,
            r matches Some(c) ==> spec_profile_matches(c, GpuVendor::AMD, spec_amd_profile(device_id)->0),
    {
        match device_id {
            0x67DF => Some(GpuCapabilities {
                vendor: GpuVendor::AMD,
                metal_version: MetalVersion::V3_1,
                vram_size: 8192 * 1024 * 1024,
                max_threads: 1024,
                has_tessellation: true,
                has_compute_shaders: true,
                display_outputs: Vec::new(),
            }),
            0x67C7 => Some(GpuCapabilities {
                vendor: GpuVendor::AMD,
                metal_version: MetalVersion::V3_1,
                vram_size: 4096 * 1024 * 1024,
                max_threads: 1024,
                has_tessellation: true,
                has_compute_shaders: true,
                display_outputs: Vec::new(),
            }),
            0x687F => Some(GpuCapabilities {
                vendor: GpuVendor::AMD,
                metal_version: MetalVersion::V3_1,
                vram_size: 8192 * 1024 * 1024,
                max_threads: 2048,
                has_tessellation: true,
                has_compute_shaders: true,
                display_outputs: Vec::new(),
            }),
            _ => None,
        }
    }
}

impl GpuAdapter for AmdAdapter {
    /// Devices are not probed on the bus here.
    fn detect() -> (r: Option<Self>)
        ensures
            r is None,
    {
        None
    }

    /// The known profile of the device, else the vendor's default profile.
    fn to_canonical(&self) -> (r: GpuCapabilities)
        ensures
            spec_profile_matches(r, GpuVendor::AMD, spec_amd_canonical_profile(self.spec_device_id())),
    {
        match Self::detect_device(self.device_id) {
            Some(c) => c,
            None => GpuCapabilities::default_amd(),
        }
    }
}

} // verus!
