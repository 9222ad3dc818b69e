use nextcore_gpu::adapters::amd::AmdAdapter;
use nextcore_gpu::adapters::intel::IntelAdapter;
use nextcore_gpu::adapters::nvidia::NvidiaAdapter;
use nextcore_gpu::adapters::GpuAdapter;
use nextcore_gpu::canonical_spec::{GpuVendor, MetalVersion};

#[test]
fn adapters_never_probe_the_bus() {
    assert!(AmdAdapter::detect().is_none());
    assert!(IntelAdapter::detect().is_none());
    assert!(NvidiaAdapter::detect().is_none());
}

#[test]
fn known_amd_device_reports_its_profile() {
    let caps = AmdAdapter::new(0x687F).to_canonical();
    assert_eq!(caps.vendor, GpuVendor::AMD);
    assert_eq!(caps.metal_version, MetalVersion::V3_1);
    assert_eq!(caps.vram_size, 8192 * 1024 * 1024);
    assert_eq!(caps.max_threads, 2048);
    assert!(caps.has_tessellation && caps.has_compute_shaders);
    assert!(caps.display_outputs.is_empty());
}

#[test]
fn unknown_devices_fall_back_to_vendor_defaults() {
    let amd = AmdAdapter::new(0xFFFF).to_canonical();
    assert_eq!(amd.vram_size, 4096 * 1024 * 1024);
    assert_eq!(amd.max_threads, 1024);
    let intel = IntelAdapter::new(0xFFFF).to_canonical();
    assert_eq!(intel.vendor, GpuVendor::Intel);
    assert_eq!(intel.metal_version, MetalVersion::V3_0);
    assert_eq!(intel.vram_size, 1536 * 1024 * 1024);
    assert_eq!(intel.max_threads, 512);
    let nvidia = NvidiaAdapter::new(0xFFFF).to_canonical();
    assert_eq!(nvidia.vendor, GpuVendor::NVIDIA);
    assert_eq!(nvidia.metal_version, MetalVersion::V3_2);
    assert_eq!(nvidia.vram_size, 8192 * 1024 * 1024);
    assert_eq!(nvidia.max_threads, 2048);
}
