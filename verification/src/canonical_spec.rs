//! Canonical description of a GPU as the Metal-facing layer sees it.
use vstd::prelude::*;

verus! {

#[derive(Debug, Clone, Copy, PartialEq, Eq, Structural)]
pub enum GpuVendor {
    AMD,
    NVIDIA,
    Intel,
    Unknown,
}

#[derive(Debug, Clone, Copy, PartialEq, Eq, PartialOrd, Ord, Structural)]
pub enum MetalVersion {
    V2_0,
    V3_0,
    V3_1,
    V3_2,
}

impl MetalVersion {
    /// The oldest Metal version a device may claim.
    pub fn minimum() -> (r: Self)
        ensures
            r == MetalVersion::V2_0,
    {
        MetalVersion::V2_0
    }
}

#[derive(Debug)]
pub struct DisplayOutput {
    pub name: String,
    pub max_resolution: (u32, u32),
    pub connector_type: String,
}

impl Clone for DisplayOutput {
    fn clone(&self) -> (r: Self)
        ensures
            r.name@ == self.name@,
            r.max_resolution == self.max_resolution,
            r.connector_type@ == self.connector_type@,
    {
        DisplayOutput {
            name: self.name.clone(),
            max_resolution: self.max_resolution,
            connector_type: self.connector_type.clone(),
        }
    }
}

#[derive(Debug, Clone)]
pub struct GpuCapabilities {
    pub vendor: GpuVendor,
    pub metal_version: MetalVersion,
    pub vram_size: u64,
    pub max_threads: u32,
    pub has_tessellation: bool,
    pub has_compute_shaders: bool,
    pub display_outputs: Vec<DisplayOutput>,
}

/// Video memory of the built-in profiles, in bytes.
pub const INTEL_DEFAULT_VRAM: u64 = 1536 * 1024 * 1024;
pub const AMD_DEFAULT_VRAM: u64 = 4096 * 1024 * 1024;
pub const NVIDIA_DEFAULT_VRAM: u64 = 8192 * 1024 * 1024;

impl GpuCapabilities {
    /// A usable description names a known vendor, some video memory and at
    /// least one thread.
    pub open spec fn spec_valid(&self) -> bool {
        self.vendor != GpuVendor::Unknown && self.vram_size != 0 && self.max_threads != 0
    }

    pub fn validate(&self) -> (r: bool)
        ensures
            r == self.spec_valid(),
    {
        if let GpuVendor::Unknown = self.vendor {
            return false;
        }
        if self.vram_size == 0 {
            return false;
        }
        if self.max_threads == 0 {
            return false;
        }
        true
    }

    /// The most modest profile of `vendor`: minimum Metal version, one
    /// thread, no optional features and no display outputs.
    pub fn software_fallback(vendor: GpuVendor, detected_vram: u64) -> (r: Self)
        ensures
            r.vendor == vendor,
            r.metal_version == MetalVersion::V2_0,
            r.vram_size == detected_vram,
            r.max_threads == 1,
            !r.has_compute_shaders,
            !r.has_tessellation,
            r.display_outputs@.len() == 0,
    {
        GpuCapabilities {
            vendor,
            metal_version: MetalVersion::minimum(),
            vram_size: detected_vram,
            max_threads: 1,
            has_compute_shaders: false,
            has_tessellation: false,
            display_outputs: Vec::new(),
        }
    }

    pub fn default_intel() -> (r: Self)
        ensures
            r.vendor == GpuVendor::Intel,
            r.metal_version == MetalVersion::V3_0,
            r.vram_size == INTEL_DEFAULT_VRAM,
            r.max_threads == 512,
            r.has_tessellation,
            r.has_compute_shaders,
            r.display_outputs@.len() == 0,
    {
        GpuCapabilities {
            vendor: GpuVendor::Intel,
            metal_version: MetalVersion::V3_0,
            vram_size: INTEL_DEFAULT_VRAM,
            max_threads: 512,
            has_tessellation: true,
            has_compute_shaders: true,
            display_outputs: Vec::new(),
        }
    }

    pub fn default_amd() -> (r: Self)
        ensures
            r.vendor == GpuVendor::AMD,
            r.metal_version == MetalVersion::V3_1,
            r.vram_size == AMD_DEFAULT_VRAM,
            r.max_threads == 1024,
            r.has_tessellation,
            r.has_compute_shaders,
            r.display_outputs@.len() == 0,
    {
        GpuCapabilities {
            vendor: GpuVendor::AMD,
            metal_version: MetalVersion::V3_1,
            vram_size: AMD_DEFAULT_VRAM,
            max_threads: 1024,
            has_tessellation: true,
            has_compute_shaders: true,
            display_outputs: Vec::new(),
        }
    }

    pub fn default_nvidia() -> (r: Self)
        ensures
            r.vendor == GpuVendor::NVIDIA,
            r.metal_version == MetalVersion::V3_2,
            r.vram_size == NVIDIA_DEFAULT_VRAM,
            r.max_threads == 2048,
            r.has_tessellation,
            r.has_compute_shaders,
            r.display_outputs@.len() == 0,
    {
        GpuCapabilities {
            vendor: GpuVendor::NVIDIA,
            metal_version: MetalVersion::V3_2,
            vram_size: NVIDIA_DEFAULT_VRAM,
            max_threads: 2048,
            has_tessellation: true,
            has_compute_shaders: true,
            display_outputs: Vec::new(),
        }
    }
}

/// Every built-in profile is a valid description.
pub proof fn law_default_profiles_validate(c: GpuCapabilities)
    requires
        c.vendor != GpuVendor::Unknown,
        c.vram_size == INTEL_DEFAULT_VRAM || c.vram_size == AMD_DEFAULT_VRAM || c.vram_size
            == NVIDIA_DEFAULT_VRAM,
        c.max_threads >= 512,
    ensures
        c.spec_valid(),
{
}

} // verus!
