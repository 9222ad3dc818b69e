//! Errors of software rasterization. The rasterizer itself works in floating
//! point and is not part of this library.
use vstd::prelude::*;
use crate::framebuffer::FramebufferError;

verus! {

#[derive(Debug, Clone, Copy, PartialEq, Eq, Structural)]
pub enum RasterError {
    Framebuffer(FramebufferError),
    DegenerateTriangle,
}

impl RasterError {
    pub open spec fn spec_message(&self) -> Seq<char> {
        match self {
            RasterError::Framebuffer(e) => "framebuffer error: "@ + e.spec_message(),
            RasterError::DegenerateTriangle => "degenerate triangle"@,
        }
    }

    pub fn message(&self) -> (r: String)
        ensures
            r@ == self.spec_message(),
    {
        match self {
            RasterError::Framebuffer(e) => {
                let mut m = String::from_str("framebuffer error: ");
                m.append(e.message().as_str());
                m
            },
            RasterError::DegenerateTriangle => String::from_str("degenerate triangle"),
        }
    }
}

} // verus!
