//! Guest Metal acceptance honesty contract.
//!
//! Design D10 requires guest device enumeration, resource creation, command
//! queue execution, and fence synchronization. This module only records whether
//! those gates are met. It never synthesizes success from host Vulkan,
//! framebuffer scanout, PCI capability metadata, or feature flags.
use vstd::prelude::*;

verus! {

/// Named gates from Design D10. All start unmet.
#[derive(Debug, Clone, Copy, PartialEq, Eq, Structural)]
pub enum MetalAcceptanceGate {
    DeviceEnumeration,
    ResourceCreation,
    CommandQueueExecution,
    FenceSynchronization,
}

/// Immutable snapshot of Metal acceptance. Construct via [`MetalAcceptanceReport::unmet`].
#[derive(Debug, Clone, Copy, PartialEq, Eq, Structural)]
pub struct MetalAcceptanceReport {
    pub device_enumerated: bool,
    pub resources_created: bool,
    pub command_queue_executed: bool,
    pub fences_synchronized: bool,
    /// Remains false until every D10 gate is true with evidence.
    pub metal_verified: bool,
}

/// Refusal of an acceptance update.
#[derive(Debug, Clone, Copy, PartialEq, Eq, Structural)]
pub enum MetalAcceptanceError {
    /// Refuses `metal_verified=true` when any D10 gate is still unmet.
    VerifiedWithoutD10,
}

impl MetalAcceptanceError {
    pub open spec fn spec_message(&self) -> Seq<char> {
        "metal_verified requires all Design D10 gates; refusing synthetic success"@
    }

    /// The error's text.
    pub fn message(&self) -> (r: String)
        ensures
            r@ == self.spec_message(),
    {
        String::from_str("metal_verified requires all Design D10 gates; refusing synthetic success")
    }
}

impl MetalAcceptanceReport {
    /// All four D10 gates hold.
    pub open spec fn spec_d10_complete(self) -> bool {
        self.device_enumerated && self.resources_created && self.command_queue_executed
            && self.fences_synchronized
    }

    /// The report with every flag false.
    pub open spec fn spec_unmet() -> Self {
        MetalAcceptanceReport {
            device_enumerated: false,
            resources_created: false,
            command_queue_executed: false,
            fences_synchronized: false,
            metal_verified: false,
        }
    }

    /// The flag that records `gate`.
    pub open spec fn spec_gate_met(self, gate: MetalAcceptanceGate) -> bool {
        match gate {
            MetalAcceptanceGate::DeviceEnumeration => self.device_enumerated,
            MetalAcceptanceGate::ResourceCreation => self.resources_created,
            MetalAcceptanceGate::CommandQueueExecution => self.command_queue_executed,
            MetalAcceptanceGate::FenceSynchronization => self.fences_synchronized,
        }
    }

    /// Honest default: no guest Metal evidence.
    pub fn unmet() -> (r: Self)
        ensures
            r == Self::spec_unmet(),
    {
        MetalAcceptanceReport {
            device_enumerated: false,
            resources_created: false,
            command_queue_executed: false,
            fences_synchronized: false,
            metal_verified: false,
        }
    }

    pub fn gate_met(&self, gate: MetalAcceptanceGate) -> (r: bool)
        ensures
            r == self.spec_gate_met(gate),
    {
        match gate {
            MetalAcceptanceGate::DeviceEnumeration => self.device_enumerated,
            MetalAcceptanceGate::ResourceCreation => self.resources_created,
            MetalAcceptanceGate::CommandQueueExecution => self.command_queue_executed,
            MetalAcceptanceGate::FenceSynchronization => self.fences_synchronized,
        }
    }

    /// True only when all four D10 gates are set. Does not imply boot success.
    pub fn d10_complete(&self) -> (r: bool)
        ensures
            r == self.spec_d10_complete(),
    {
        self.device_enumerated && self.resources_created && self.command_queue_executed
            && self.fences_synchronized
    }

    /// What `with_metal_verified` answers.
    pub open spec fn spec_with_metal_verified(self, verified: bool) -> Result<Self, MetalAcceptanceError> {
        if verified && !self.spec_d10_complete() {
            Err(MetalAcceptanceError::VerifiedWithoutD10)
        } else {
            Ok(MetalAcceptanceReport { metal_verified: verified, ..self })
        }
    }

    /// `metal_verified` may be true only when D10 is complete. Callers that set
    /// the flag without evidence are rejected.
    pub fn with_metal_verified(self, verified: bool) -> (r: Result<Self, MetalAcceptanceError>)
        ensures
            r == self.spec_with_metal_verified(verified),
    {
        if verified && !self.d10_complete() {
            return Err(MetalAcceptanceError::VerifiedWithoutD10);
        }
        let mut out = self;
        out.metal_verified = verified;
        Ok(out)
    }
}

/// A report accepted by `with_metal_verified` never carries `metal_verified`
/// without all four D10 gates, whatever report and flag it started from.
pub proof fn law_verified_requires_d10(report: MetalAcceptanceReport, verified: bool)
    ensures
        report.spec_with_metal_verified(verified) matches Ok(r) ==> (r.metal_verified
            ==> r.spec_d10_complete()),
{
}

} // verus!
