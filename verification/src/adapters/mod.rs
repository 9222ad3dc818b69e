//! Vendor adapters: the canonical capabilities of known devices.
use vstd::prelude::*;
use crate::canonical_spec::{GpuCapabilities, GpuVendor, MetalVersion};

pub mod amd;
pub mod intel;
pub mod nvidia;

verus! {

/// `c` is the capability set of a known device of `vendor` with `profile`
/// (Metal version, video memory, threads): tessellation and compute shaders,
/// no display outputs listed.
pub open spec fn spec_profile_matches(c: GpuCapabilities, vendor: GpuVendor, profile: (MetalVersion, u64, u32)) -> bool {
    &&& c.vendor == vendor
    &&& c.metal_version == profile.0
    &&& c.vram_size == profile.1
    &&& c.max_threads == profile.2
    &&& c.has_tessellation
    &&& c.has_compute_shaders
    &&& c.display_outputs@.len() == 0
}

pub trait GpuAdapter {
    fn detect() -> Option<Self> where Self: Sized;

    fn to_canonical(&self) -> GpuCapabilities;
}

/// The adapter for an AMD, NVIDIA or Intel vendor id, holding `device_id`.
pub fn adapter_for(vendor_id: u16, device_id: u16) -> (r: Option<Box<dyn GpuAdapter>>)
    ensures
        r is Some <==> (vendor_id == 0x1002 || vendor_id == 0x10DE || vendor_id == 0x8086),
{
    match vendor_id {
        0x1002 => Some(Box::new(amd::AmdAdapter::new(device_id))),
        0x10DE => Some(Box::new(nvidia::NvidiaAdapter::new(device_id))),
        0x8086 => Some(Box::new(intel::IntelAdapter::new(device_id))),
        _ => None,
    }
}

} // verus!
