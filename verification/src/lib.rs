pub mod metal_acceptance;
pub mod display_path_freeze;
pub mod metal_public_abi;
pub mod wire;
pub mod metal_transport;
pub mod sgpu_command;
pub mod framebuffer;
pub mod sync;
pub mod text;
pub mod compute;
pub mod canonical_spec;
pub mod virtual_device;
pub mod metal_accel_probe;
pub mod metal_guest_probe;
pub mod metal_d10_gates;
pub mod texture;
pub mod render_pipeline;
pub mod channel;
pub mod rasterizer;
pub mod command_executor;
pub mod sgpu_compute;
pub mod adapters;
pub mod translator;
pub mod spirv;
pub mod vulkan_compute;
