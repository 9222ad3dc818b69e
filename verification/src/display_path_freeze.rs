//! Preserve project-defined logical display wiring while evaluating Metal contracts.
//! These authored test identifiers are not Apple physical register addresses.
use vstd::prelude::*;
use crate::metal_acceptance::MetalAcceptanceReport;

verus! {

/// Graph-local ADP MMIO window id.
pub const ADP_MMIO_WINDOW_ID: u32 = 0x6;

/// Graph-local ADP vblank / present AIC line.
pub const ADP_AIC_IRQ_LINE: u32 = 2;

/// Machine-checkable identifier for the project-defined display contract.
pub const M1_FREEZE_DOC_MARKER: &'static str = "M1_DISPLAY_PATH_FREEZE:window=0x6,irq=2";

/// Immutable freeze snapshot. Metal acceptance state cannot alter these ids.
#[derive(Debug, Clone, Copy, PartialEq, Eq, Structural)]
pub struct DisplayPathFreeze {
    pub adp_mmio_window_id: u32,
    pub adp_aic_irq_line: u32,
}

impl DisplayPathFreeze {
    /// The frozen wiring: window `0x6`, IRQ line `2`.
    pub open spec fn spec_locked() -> Self {
        DisplayPathFreeze { adp_mmio_window_id: ADP_MMIO_WINDOW_ID, adp_aic_irq_line: ADP_AIC_IRQ_LINE }
    }

    /// Canonical frozen scanout wiring.
    pub fn locked() -> (r: Self)
        ensures
            r == Self::spec_locked(),
    {
        DisplayPathFreeze { adp_mmio_window_id: ADP_MMIO_WINDOW_ID, adp_aic_irq_line: ADP_AIC_IRQ_LINE }
    }

    /// Metal honesty reports never own or clear the display IRQ path.
    pub fn with_metal_acceptance(self, report: &MetalAcceptanceReport) -> (r: Self)
        ensures
            r == self,
    {
        self
    }

    /// True when values still match the lock (window `0x6`, IRQ `2`).
    pub fn matches_m1_lock(&self) -> (r: bool)
        ensures
            r == (*self == Self::spec_locked()),
    {
        self.adp_mmio_window_id == ADP_MMIO_WINDOW_ID && self.adp_aic_irq_line == ADP_AIC_IRQ_LINE
    }
}

/// Metal track feature / unmet acceptance must leave the freeze unchanged.
pub fn freeze_under_metal_track() -> (r: DisplayPathFreeze)
    ensures
        r == DisplayPathFreeze::spec_locked(),
{
    DisplayPathFreeze::locked().with_metal_acceptance(&MetalAcceptanceReport::unmet())
}

} // verus!
