//! Typed public ABI surface for guest-facing Metal operations.
//!
//! Capability enums and operation dispatch exist so callers can name Metal /
//! acceleration requests without inventing device success. Every op that would
//! imply a guest Metal stack returns an explicit [`MetalAbiReject`]. Device
//! enumeration is rejected (not an empty success list) so callers cannot treat
//! "ABI present" as "Metal works".
use vstd::prelude::*;
use crate::display_path_freeze::{freeze_under_metal_track, DisplayPathFreeze};
use crate::metal_acceptance::MetalAcceptanceReport;

verus! {

/// Machine-checkable marker for the public ABI lock.
pub const M2_PUBLIC_ABI_DOC_MARKER: &'static str = "M2_PUBLIC_ABI:typed-reject-no-enumeration";

/// Guest-facing capability bits. Every bit is unsupported.
#[derive(Debug, Clone, Copy, PartialEq, Eq, Hash, Structural)]
pub enum MetalGuestCapability {
    /// Guest can enumerate a Metal-class device.
    DeviceEnumeration,
    /// Guest can allocate GPU-visible resources.
    ResourceAllocation,
    /// Guest can create and submit a command queue.
    CommandQueueSubmit,
    /// Guest can create/wait fences for GPU work.
    FenceSynchronization,
    /// Guest can load a Metal library / metallib image.
    MetallibLoad,
    /// Guest can dispatch compute kernels.
    ComputeDispatch,
    /// Guest can encode render passes.
    RenderEncode,
    /// Guest can present a drawable to the scanout path via Metal.
    PresentDrawable,
}

impl MetalGuestCapability {
    /// Stable iteration order for contract tests and capability maps.
    pub const ALL: [MetalGuestCapability; 8] = [
        MetalGuestCapability::DeviceEnumeration,
        MetalGuestCapability::ResourceAllocation,
        MetalGuestCapability::CommandQueueSubmit,
        MetalGuestCapability::FenceSynchronization,
        MetalGuestCapability::MetallibLoad,
        MetalGuestCapability::ComputeDispatch,
        MetalGuestCapability::RenderEncode,
        MetalGuestCapability::PresentDrawable,
    ];

    /// Bit position of the capability in a [`MetalCapabilityBitmap`].
    pub open spec fn spec_bit(self) -> u32 {
        match self {
            MetalGuestCapability::DeviceEnumeration => 0,
            MetalGuestCapability::ResourceAllocation => 1,
            MetalGuestCapability::CommandQueueSubmit => 2,
            MetalGuestCapability::FenceSynchronization => 3,
            MetalGuestCapability::MetallibLoad => 4,
            MetalGuestCapability::ComputeDispatch => 5,
            MetalGuestCapability::RenderEncode => 6,
            MetalGuestCapability::PresentDrawable => 7,
        }
    }

    /// The capability's name, as `Debug` writes it.
    pub open spec fn spec_name(self) -> Seq<char> {
        match self {
            MetalGuestCapability::DeviceEnumeration => "DeviceEnumeration"@,
            MetalGuestCapability::ResourceAllocation => "ResourceAllocation"@,
            MetalGuestCapability::CommandQueueSubmit => "CommandQueueSubmit"@,
            MetalGuestCapability::FenceSynchronization => "FenceSynchronization"@,
            MetalGuestCapability::MetallibLoad => "MetallibLoad"@,
            MetalGuestCapability::ComputeDispatch => "ComputeDispatch"@,
            MetalGuestCapability::RenderEncode => "RenderEncode"@,
            MetalGuestCapability::PresentDrawable => "PresentDrawable"@,
        }
    }

    /// The capability's name, as `Debug` writes it.
    pub fn name(self) -> (r: &'static str)
        ensures
            r@ == self.spec_name(),
    {
        match self {
            MetalGuestCapability::DeviceEnumeration => "DeviceEnumeration",
            MetalGuestCapability::ResourceAllocation => "ResourceAllocation",
            MetalGuestCapability::CommandQueueSubmit => "CommandQueueSubmit",
            MetalGuestCapability::FenceSynchronization => "FenceSynchronization",
            MetalGuestCapability::MetallibLoad => "MetallibLoad",
            MetalGuestCapability::ComputeDispatch => "ComputeDispatch",
            MetalGuestCapability::RenderEncode => "RenderEncode",
            MetalGuestCapability::PresentDrawable => "PresentDrawable",
        }
    }

    /// Bit position of the capability in a [`MetalCapabilityBitmap`].
    pub fn bit(self) -> (r: u32)
        ensures
            r == self.spec_bit(),
            r < 8,
    {
        match self {
            MetalGuestCapability::DeviceEnumeration => 0,
            MetalGuestCapability::ResourceAllocation => 1,
            MetalGuestCapability::CommandQueueSubmit => 2,
            MetalGuestCapability::FenceSynchronization => 3,
            MetalGuestCapability::MetallibLoad => 4,
            MetalGuestCapability::ComputeDispatch => 5,
            MetalGuestCapability::RenderEncode => 6,
            MetalGuestCapability::PresentDrawable => 7,
        }
    }
}

/// Guest-facing operations accepted as typed requests on the public ABI.
#[derive(Debug, Clone, Copy, PartialEq, Eq, Structural)]
pub enum MetalGuestOp {
    /// Would advertise Metal devices to the guest. Must reject (no empty OK).
    EnumerateDevices,
    CreateBuffer { size: u64 },
    CreateCommandQueue,
    SubmitCommandBuffer,
    CreateFence,
    WaitFence,
    LoadMetallib,
    DispatchCompute,
    EncodeRender,
    PresentDrawable,
}

impl MetalGuestOp {
    /// Primary capability an op would require.
    pub open spec fn spec_required_capability(self) -> MetalGuestCapability {
        match self {
            MetalGuestOp::EnumerateDevices => MetalGuestCapability::DeviceEnumeration,
            MetalGuestOp::CreateBuffer { .. } => MetalGuestCapability::ResourceAllocation,
            MetalGuestOp::CreateCommandQueue => MetalGuestCapability::CommandQueueSubmit,
            MetalGuestOp::SubmitCommandBuffer => MetalGuestCapability::CommandQueueSubmit,
            MetalGuestOp::CreateFence => MetalGuestCapability::FenceSynchronization,
            MetalGuestOp::WaitFence => MetalGuestCapability::FenceSynchronization,
            MetalGuestOp::LoadMetallib => MetalGuestCapability::MetallibLoad,
            MetalGuestOp::DispatchCompute => MetalGuestCapability::ComputeDispatch,
            MetalGuestOp::EncodeRender => MetalGuestCapability::RenderEncode,
            MetalGuestOp::PresentDrawable => MetalGuestCapability::PresentDrawable,
        }
    }

    /// Primary capability this op would require if Metal were implemented.
    pub fn required_capability(self) -> (r: MetalGuestCapability)
        ensures
            r == self.spec_required_capability(),
    {
        match self {
            MetalGuestOp::EnumerateDevices => MetalGuestCapability::DeviceEnumeration,
            MetalGuestOp::CreateBuffer { .. } => MetalGuestCapability::ResourceAllocation,
            MetalGuestOp::CreateCommandQueue => MetalGuestCapability::CommandQueueSubmit,
            MetalGuestOp::SubmitCommandBuffer => MetalGuestCapability::CommandQueueSubmit,
            MetalGuestOp::CreateFence => MetalGuestCapability::FenceSynchronization,
            MetalGuestOp::WaitFence => MetalGuestCapability::FenceSynchronization,
            MetalGuestOp::LoadMetallib => MetalGuestCapability::MetallibLoad,
            MetalGuestOp::DispatchCompute => MetalGuestCapability::ComputeDispatch,
            MetalGuestOp::EncodeRender => MetalGuestCapability::RenderEncode,
            MetalGuestOp::PresentDrawable => MetalGuestCapability::PresentDrawable,
        }
    }
}

/// Explicit reject path. Prefer these over `Ok` with empty/fake payloads.
#[derive(Debug, Clone, Copy, PartialEq, Eq, Structural)]
pub enum MetalAbiReject {
    /// Named capability is not available on this host/guest path.
    CapabilityUnsupported(MetalGuestCapability),
    /// No guest Metal device is registered; refuse to invent one.
    NoGuestMetalDevice,
    /// Enumeration must not succeed (even with zero devices).
    EnumerationNotAdvertised,
    /// Design D10 / `metal_verified` still unmet.
    AcceptanceUnmet,
}

impl MetalAbiReject {
    pub open spec fn spec_message(&self) -> Seq<char> {
        match self {
            MetalAbiReject::CapabilityUnsupported(cap) => "Metal capability unsupported: "@ + cap.spec_name(),
            MetalAbiReject::NoGuestMetalDevice => "no guest Metal device; refusing fake device success"@,
            MetalAbiReject::EnumerationNotAdvertised =>
                "device enumeration is not advertised; empty success would imply Metal"@,
            MetalAbiReject::AcceptanceUnmet => "metal acceptance unmet; metal_verified remains false"@,
        }
    }

    /// The reject's text.
    pub fn message(&self) -> (r: String)
        ensures
            r@ == self.spec_message(),
    {
        match self {
            MetalAbiReject::CapabilityUnsupported(cap) => {
                let mut m = String::from_str("Metal capability unsupported: ");
                m.append(cap.name());
                m
            },
            MetalAbiReject::NoGuestMetalDevice => String::from_str(
                "no guest Metal device; refusing fake device success",
            ),
            MetalAbiReject::EnumerationNotAdvertised => String::from_str(
                "device enumeration is not advertised; empty success would imply Metal",
            ),
            MetalAbiReject::AcceptanceUnmet => String::from_str(
                "metal acceptance unmet; metal_verified remains false",
            ),
        }
    }
}

/// Bitmap of guest Metal capabilities. Honest default: all bits clear.
#[derive(Debug, Clone, Copy, PartialEq, Eq, Structural)]
pub struct MetalCapabilityBitmap {
    bits: u32,
}

impl MetalCapabilityBitmap {
    /// The raw bits of the bitmap.
    pub closed spec fn spec_bits(self) -> u32 {
        self.bits
    }

    /// Whether the bit of `cap` is set.
    pub open spec fn spec_is_supported(self, cap: MetalGuestCapability) -> bool {
        self.spec_bits() & (1u32 << cap.spec_bit()) != 0
    }

    pub fn empty() -> (r: Self)
        ensures
            r.spec_bits() == 0,
    {
        MetalCapabilityBitmap { bits: 0 }
    }

    pub fn is_supported(self, cap: MetalGuestCapability) -> (r: bool)
        ensures
            r == self.spec_is_supported(cap),
    {
        let b = cap.bit();
        (self.bits & (1u32 << b)) != 0
    }

    pub fn any_supported(self) -> (r: bool)
        ensures
            r == (self.spec_bits() != 0),
    {
        self.bits != 0
    }

    /// Contract helper: the surface must advertise nothing.
    pub fn asserts_all_unsupported(self) -> (r: bool)
        ensures
            r == (self.spec_bits() == 0),
            r ==> forall|cap: MetalGuestCapability| !self.spec_is_supported(cap),
    {
        let none = !self.any_supported();
        let bits = self.bits;
        assert forall|cap: MetalGuestCapability| none ==> !self.spec_is_supported(cap) by {
            let k = cap.spec_bit();
            assert(bits == 0 ==> bits & (1u32 << k) == 0) by (bit_vector);
        }
        let mut i: usize = 0;
        let mut all = true;
        while i < 8
            invariant
                i <= 8,
                none ==> all,
                forall|cap: MetalGuestCapability| none ==> !self.spec_is_supported(cap),
            decreases 8 - i,
        {
            let cap = MetalGuestCapability::ALL[i];
            if self.is_supported(cap) {
                all = false;
            }
            i = i + 1;
        }
        none && all
    }
}

/// Public ABI handle. Does not register devices or promote acceptance.
#[derive(Debug, Clone, Copy, PartialEq, Eq, Structural)]
pub struct MetalPublicAbi {
    acceptance: MetalAcceptanceReport,
    capabilities: MetalCapabilityBitmap,
}

impl MetalPublicAbi {
    /// The acceptance report held by the handle.
    pub closed spec fn spec_acceptance(self) -> MetalAcceptanceReport {
        self.acceptance
    }

    /// The capability bitmap held by the handle.
    pub closed spec fn spec_capabilities(self) -> MetalCapabilityBitmap {
        self.capabilities
    }

    /// What `execute` answers for `op`.
    pub open spec fn spec_execute(self, op: MetalGuestOp) -> Result<(), MetalAbiReject> {
        if self.spec_acceptance().metal_verified || self.spec_acceptance().spec_d10_complete() {
            Err(MetalAbiReject::AcceptanceUnmet)
        } else if op is EnumerateDevices {
            Err(MetalAbiReject::EnumerationNotAdvertised)
        } else if !self.spec_capabilities().spec_is_supported(op.spec_required_capability()) {
            Err(MetalAbiReject::CapabilityUnsupported(op.spec_required_capability()))
        } else {
            Err(MetalAbiReject::NoGuestMetalDevice)
        }
    }

    /// Honest surface: unmet acceptance, zero capabilities.
    pub fn current() -> (r: Self)
        ensures
            r.spec_acceptance() == MetalAcceptanceReport::spec_unmet(),
            r.spec_capabilities().spec_bits() == 0,
    {
        MetalPublicAbi {
            acceptance: MetalAcceptanceReport::unmet(),
            capabilities: MetalCapabilityBitmap::empty(),
        }
    }

    pub fn acceptance(&self) -> (r: &MetalAcceptanceReport)
        ensures
            *r == self.spec_acceptance(),
    {
        &self.acceptance
    }

    pub fn capabilities(&self) -> (r: MetalCapabilityBitmap)
        ensures
            r == self.spec_capabilities(),
    {
        self.capabilities
    }

    /// Capability query.
    pub fn capability_supported(&self, cap: MetalGuestCapability) -> (r: bool)
        ensures
            r == self.spec_capabilities().spec_is_supported(cap),
    {
        self.capabilities.is_supported(cap)
    }

    /// Display-path freeze under this ABI (remains locked).
    pub fn display_path_freeze(&self) -> (r: DisplayPathFreeze)
        ensures
            r == DisplayPathFreeze::spec_locked(),
    {
        freeze_under_metal_track().with_metal_acceptance(&self.acceptance)
    }

    /// Dispatch a typed guest op. Always rejects unsupported / Metal-implying work.
    pub fn execute(&self, op: MetalGuestOp) -> (r: Result<(), MetalAbiReject>)
        ensures
            r == self.spec_execute(op),
            r is Err,
    {
        if self.acceptance.metal_verified || self.acceptance.d10_complete() {
            return Err(MetalAbiReject::AcceptanceUnmet);
        }
        if let MetalGuestOp::EnumerateDevices = op {
            return Err(MetalAbiReject::EnumerationNotAdvertised);
        }
        let cap = op.required_capability();
        if !self.capability_supported(cap) {
            return Err(MetalAbiReject::CapabilityUnsupported(cap));
        }
        Err(MetalAbiReject::NoGuestMetalDevice)
    }

    /// Reject path for enumeration without implying Metal.
    pub fn reject_enumerate_devices(&self) -> (r: MetalAbiReject)
        ensures
            self.spec_execute(MetalGuestOp::EnumerateDevices) == Err::<(), MetalAbiReject>(r),
    {
        match self.execute(MetalGuestOp::EnumerateDevices) {
            Err(e) => e,
            Ok(()) => MetalAbiReject::EnumerationNotAdvertised,
        }
    }
}

/// On the honest surface every guest op is refused with the reason its kind
/// calls for: enumeration is never advertised and every other op names the
/// unsupported capability it would need.
pub proof fn law_current_abi_rejects_every_op(abi: MetalPublicAbi, op: MetalGuestOp)
    requires
        abi.spec_acceptance() == MetalAcceptanceReport::spec_unmet(),
        abi.spec_capabilities().spec_bits() == 0,
    ensures
        op is EnumerateDevices ==> abi.spec_execute(op) == Err::<(), MetalAbiReject>(
            MetalAbiReject::EnumerationNotAdvertised,
        ),
        !(op is EnumerateDevices) ==> abi.spec_execute(op) == Err::<(), MetalAbiReject>(
            MetalAbiReject::CapabilityUnsupported(op.spec_required_capability()),
        ),
{
    let k = op.spec_required_capability().spec_bit();
    let bits = abi.spec_capabilities().spec_bits();
    assert(bits == 0 ==> bits & (1u32 << k) == 0) by (bit_vector);
}

} // verus!
