//! Translation of a real GPU's PCI identity into canonical capabilities.
use vstd::prelude::*;
use crate::adapters::{amd, intel, nvidia, spec_profile_matches};
use crate::adapters::amd::spec_amd_profile;
use crate::adapters::intel::spec_intel_profile;
use crate::adapters::nvidia::spec_nvidia_profile;
use crate::canonical_spec::{GpuCapabilities, GpuVendor, MetalVersion};

verus! {

#[derive(Debug, Clone, Copy)]
pub struct RealGpuInfo {
    pub vendor_id: u16,
    pub device_id: u16,
    pub vram: u64,
    pub revision: u8,
}

#[derive(Debug, Clone, Copy)]
pub struct PciEntry {
    pub vendor_id: u16,
    pub device_id: u16,
    pub class_code: u16,
}

/// The vendor of a PCI vendor id, if it is one of the three known.
pub open spec fn spec_vendor_of(vendor_id: u16) -> Option<GpuVendor> {
    if vendor_id == 0x1002 {
        Some(GpuVendor::AMD)
    } else if vendor_id == 0x10DE {
        Some(GpuVendor::NVIDIA)
    } else if vendor_id == 0x8086 {
        Some(GpuVendor::Intel)
    } else {
        None
    }
}

/// The known profile of a device of a known vendor.
pub open spec fn spec_known_profile(vendor_id: u16, device_id: u16) -> Option<(MetalVersion, u64, u32)> {
    if vendor_id == 0x1002 {
        spec_amd_profile(device_id)
    } else if vendor_id == 0x10DE {
        spec_nvidia_profile(device_id)
    } else if vendor_id == 0x8086 {
        spec_intel_profile(device_id)
    } else {
        None
    }
}

/// `c` is the known device's capability set with `vram` bytes of video memory.
pub open spec fn spec_known_caps(c: GpuCapabilities, vendor_id: u16, device_id: u16, vram: u64) -> bool {
    let p = spec_known_profile(vendor_id, device_id)->0;
    spec_profile_matches(c, spec_vendor_of(vendor_id)->0, (p.0, vram, p.2))
}

pub struct GpuTranslator;

impl GpuTranslator {
    pub fn new() -> (r: Self) {
        GpuTranslator
    }

    /// The capabilities of a known device, with `vram_mb` MiB of video memory.
    pub fn from_pci_ids(vendor_id: u16, device_id: u16, vram_mb: u32) -> (r: Option<GpuCapabilities>)
        ensures
            r is Some <==> spec_known_profile(vendor_id, device_id) is Some,
            r matches Some(c) ==> spec_known_caps(c, vendor_id, device_id, (vram_mb * 1048576) as u64),
    {
        let vram_bytes = (vram_mb as u64) * 1024 * 1024;
        let caps = match vendor_id {
            0x1002 => amd::AmdAdapter::detect_device(device_id),
            0x10DE => nvidia::NvidiaAdapter::detect_device(device_id),
            0x8086 => intel::IntelAdapter::detect_device(device_id),
            _ => None,
        };
        match caps {
            Some(mut c) => {
                c.vram_size = vram_bytes;
                Some(c)
            },
            None => None,
        }
    }

    /// The known devices among `entries`, in order, each with no video memory.
    pub fn from_known_set(entries: &[PciEntry]) -> (r: Vec<GpuCapabilities>)
        ensures
            r@.len() == spec_known_entries(entries@).len(),
            forall|i: int| 0 <= i < r@.len() ==> spec_known_caps(
                #[trigger] r@[i],
                spec_known_entries(entries@)[i].vendor_id,
                spec_known_entries(entries@)[i].device_id,
                0,
            ),
    {
        let mut out: Vec<GpuCapabilities> = Vec::new();
        let mut i: usize = 0;
        while i < entries.len()
            invariant
                i <= entries@.len(),
                out@.len() == spec_known_entries(entries@.subrange(0, i as int)).len(),
                forall|k: int| 0 <= k < out@.len() ==> spec_known_caps(
                    #[trigger] out@[k],
                    spec_known_entries(entries@.subrange(0, i as int))[k].vendor_id,
                    spec_known_entries(entries@.subrange(0, i as int))[k].device_id,
                    0,
                ),
            decreases entries@.len() - i,
        {
            let e = entries[i];
            let found = Self::from_pci_ids(e.vendor_id, e.device_id, 0);
            proof {
                assert(entries@.subrange(0, i + 1).drop_last() =~= entries@.subrange(0, i as int));
            }
            match found {
                Some(c) => {
                    out.push(c);
                },
                None => {},
            }
            i = i + 1;
        }
        assert(entries@.subrange(0, entries@.len() as int) =~= entries@);
        out
    }

    /// A known device of a known vendor gets its profile with the real
    /// video memory rounded down to whole MiB (the MiB count taken modulo
    /// 2^32); anything else gets the vendor's software fallback with the
    /// real video memory.
    pub fn detect(vendor_known: bool, real_info: &RealGpuInfo) -> (r: GpuCapabilities)
        ensures
            ({
                let mb = (real_info.vram / 1048576) as u32;
                if vendor_known && spec_known_profile(real_info.vendor_id, real_info.device_id) is Some {
                    spec_known_caps(r, real_info.vendor_id, real_info.device_id, (mb * 1048576) as u64)
                } else {
                    &&& r.vendor == (match spec_vendor_of(real_info.vendor_id) {
                        Some(v) => v,
                        None => GpuVendor::Unknown,
                    })
                    &&& r.metal_version == MetalVersion::V2_0
                    &&& r.vram_size == real_info.vram
                    &&& r.max_threads == 1
                    &&& !r.has_compute_shaders
                    &&& !r.has_tessellation
                    &&& r.display_outputs@.len() == 0
                }
            }),
    {
        if vendor_known {
            match Self::from_pci_ids(
                real_info.vendor_id,
                real_info.device_id,
                (real_info.vram / (1024 * 1024)) as u32,
            ) {
                Some(caps) => {
                    return caps;
                },
                None => {},
            }
        }
        let vendor = match real_info.vendor_id {
            0x1002 => GpuVendor::AMD,
            0x10DE => GpuVendor::NVIDIA,
            0x8086 => GpuVendor::Intel,
            _ => GpuVendor::Unknown,
        };
        GpuCapabilities::software_fallback(vendor, real_info.vram)
    }

    /// Detection with the vendor known exactly when it is AMD, NVIDIA or Intel.
    pub fn translate(real_info: &RealGpuInfo) -> (r: GpuCapabilities)
        ensures
            ({
                let mb = (real_info.vram / 1048576) as u32;
                if spec_known_profile(real_info.vendor_id, real_info.device_id) is Some {
                    spec_known_caps(r, real_info.vendor_id, real_info.device_id, (mb * 1048576) as u64)
                } else {
                    &&& r.vendor == (match spec_vendor_of(real_info.vendor_id) {
                        Some(v) => v,
                        None => GpuVendor::Unknown,
                    })
                    &&& r.metal_version == MetalVersion::V2_0
                    &&& r.vram_size == real_info.vram
                    &&& r.max_threads == 1
                    &&& !r.has_compute_shaders
                    &&& !r.has_tessellation
                    &&& r.display_outputs@.len() == 0
                }
            }),
    {
        let vendor_known = match real_info.vendor_id {
            0x1002 | 0x10DE | 0x8086 => true,
            _ => false,
        };
        Self::detect(vendor_known, real_info)
    }
}

/// The entries that name a known device, in order.
pub open spec fn spec_known_entries(entries: Seq<PciEntry>) -> Seq<PciEntry>
    decreases entries.len(),
{
    if entries.len() == 0 {
        Seq::empty()
    } else {
        let prev = spec_known_entries(entries.drop_last());
        if spec_known_profile(entries.last().vendor_id, entries.last().device_id) is Some {
            prev.push(entries.last())
        } else {
            prev
        }
    }
}

impl Default for GpuTranslator {
    fn default() -> (r: Self) {
        Self::new()
    }
}

} // verus!
