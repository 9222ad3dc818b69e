//! Render pipeline description: fixed-function state, vertex input, shaders
//! and render-pass attachments.
//!
//! Values that are `f32` in the graphics API (depth bias, line width,
//! viewport rectangle and depth range) are held as the IEEE-754 bit patterns
//! of those `f32` values.
use vstd::prelude::*;
use crate::text::{decimal_string, spec_decimal};

verus! {

#[derive(Debug)]
pub enum PipelineError {
    InvalidStride(u32),
    InvalidAttachment(u32),
    NotBound,
    RasterizationError(String),
}

impl PipelineError {
    pub open spec fn spec_message(&self) -> Seq<char> {
        match self {
            PipelineError::InvalidStride(s) => "invalid vertex buffer stride: "@ + spec_decimal(*s as nat),
            PipelineError::InvalidAttachment(a) => "invalid attachment index: "@ + spec_decimal(*a as nat),
            PipelineError::NotBound => "pipeline not bound"@,
            PipelineError::RasterizationError(m) => "rasterization error: "@ + m@,
        }
    }

    /// The error's text.
    pub fn message(&self) -> (r: String)
        ensures
            r@ == self.spec_message(),
    {
        match self {
            PipelineError::InvalidStride(s) => {
                let mut m = String::from_str("invalid vertex buffer stride: ");
                m.append(decimal_string(*s as u64).as_str());
                m
            },
            PipelineError::InvalidAttachment(a) => {
                let mut m = String::from_str("invalid attachment index: ");
                m.append(decimal_string(*a as u64).as_str());
                m
            },
            PipelineError::NotBound => String::from_str("pipeline not bound"),
            PipelineError::RasterizationError(detail) => {
                let mut m = String::from_str("rasterization error: ");
                m.append(detail.as_str());
                m
            },
        }
    }
}

#[derive(Debug, Clone, Copy, PartialEq, Eq, Structural)]
pub enum Topology {
    TriangleList,
    TriangleStrip,
    LineList,
    LineStrip,
    PointList,
}

#[derive(Debug, Clone, Copy, PartialEq, Eq, Structural)]
pub enum FillMode {
    Fill,
    Line,
    Point,
}

#[derive(Debug, Clone, Copy, PartialEq, Eq, Structural)]
pub enum CullMode {
    /// No face is culled.
    Disabled,
    Front,
    Back,
}

#[derive(Debug, Clone, Copy, PartialEq, Eq, Structural)]
pub enum FrontFace {
    CounterClockwise,
    Clockwise,
}

#[derive(Debug, Clone, Copy, PartialEq, Eq, Structural)]
pub enum BlendFactor {
    Zero,
    One,
    SrcAlpha,
    OneMinusSrcAlpha,
    DstAlpha,
    OneMinusDstAlpha,
}

#[derive(Debug, Clone, Copy, PartialEq, Eq, Structural)]
pub enum BlendOp {
    Add,
    Subtract,
    ReverseSubtract,
    Min,
    Max,
}

#[derive(Debug, Clone, Copy, PartialEq, Eq, Structural)]
pub enum CompareOp {
    Never,
    Less,
    Equal,
    LessEqual,
    Greater,
    NotEqual,
    GreaterEqual,
    Always,
}

#[derive(Debug, Clone, Copy, PartialEq, Eq, Structural)]
pub enum StencilOp {
    Keep,
    Zero,
    Replace,
    IncrementAndClamp,
    DecrementAndClamp,
    Invert,
    IncrementAndWrap,
    DecrementAndWrap,
}

#[derive(Debug, Clone, Copy, PartialEq, Eq, Structural)]
pub struct DepthState {
    pub test_enabled: bool,
    pub write_enabled: bool,
    pub compare_op: CompareOp,
}

impl Default for DepthState {
    /// Depth test and writes on, passing nearer fragments.
    fn default() -> (r: Self)
        ensures
            r.test_enabled,
            r.write_enabled,
            r.compare_op == CompareOp::Less,
    {
        DepthState { test_enabled: true, write_enabled: true, compare_op: CompareOp::Less }
    }
}

#[derive(Debug, Clone, Copy, PartialEq, Eq, Structural)]
pub struct StencilState {
    pub test_enabled: bool,
    pub front_op: StencilOp,
    pub back_op: StencilOp,
    pub front_compare: CompareOp,
    pub back_compare: CompareOp,
    pub reference: u32,
    pub read_mask: u32,
    pub write_mask: u32,
}

impl Default for StencilState {
    /// Stencil test off; keep on both faces, always passing, full 8-bit masks.
    fn default() -> (r: Self)
        ensures
            !r.test_enabled,
            r.front_op == StencilOp::Keep,
            r.back_op == StencilOp::Keep,
            r.front_compare == CompareOp::Always,
            r.back_compare == CompareOp::Always,
            r.reference == 0,
            r.read_mask == 0xFF,
            r.write_mask == 0xFF,
    {
        StencilState {
            test_enabled: false,
            front_op: StencilOp::Keep,
            back_op: StencilOp::Keep,
            front_compare: CompareOp::Always,
            back_compare: CompareOp::Always,
            reference: 0,
            read_mask: 0xFF,
            write_mask: 0xFF,
        }
    }
}

#[derive(Debug, Clone, Copy, PartialEq, Eq, Structural)]
pub struct BlendState {
    pub enabled: bool,
    pub src_color: BlendFactor,
    pub dst_color: BlendFactor,
    pub color_op: BlendOp,
    pub src_alpha: BlendFactor,
    pub dst_alpha: BlendFactor,
    pub alpha_op: BlendOp,
    pub write_mask: u8,
}

impl Default for BlendState {
    /// Blending off: source replaces destination; all four channels written.
    fn default() -> (r: Self)
        ensures
            !r.enabled,
            r.src_color == BlendFactor::One,
            r.dst_color == BlendFactor::Zero,
            r.color_op == BlendOp::Add,
            r.src_alpha == BlendFactor::One,
            r.dst_alpha == BlendFactor::Zero,
            r.alpha_op == BlendOp::Add,
            r.write_mask == 0xF,
    {
        BlendState {
            enabled: false,
            src_color: BlendFactor::One,
            dst_color: BlendFactor::Zero,
            color_op: BlendOp::Add,
            src_alpha: BlendFactor::One,
            dst_alpha: BlendFactor::Zero,
            alpha_op: BlendOp::Add,
            write_mask: 0xF,
        }
    }
}

/// IEEE-754 bits of `0.0f32` and `1.0f32`.
pub const F32_ZERO: u32 = 0;
pub const F32_ONE: u32 = 0x3F80_0000;

#[derive(Debug, Clone, Copy, PartialEq, Eq, Structural)]
pub struct RasterizerState {
    pub fill_mode: FillMode,
    pub cull_mode: CullMode,
    pub front_face: FrontFace,
    pub depth_bias_enable: bool,
    /// `f32` bits.
    pub depth_bias_constant: u32,
    /// `f32` bits.
    pub depth_bias_slope: u32,
    /// `f32` bits.
    pub depth_bias_clamp: u32,
    pub scissor_enable: bool,
    /// `f32` bits.
    pub line_width: u32,
}

impl Default for RasterizerState {
    /// Filled, back faces culled, counter-clockwise front, no depth bias,
    /// no scissor, lines one pixel wide.
    fn default() -> (r: Self)
        ensures
            r.fill_mode == FillMode::Fill,
            r.cull_mode == CullMode::Back,
            r.front_face == FrontFace::CounterClockwise,
            !r.depth_bias_enable,
            r.depth_bias_constant == F32_ZERO,
            r.depth_bias_slope == F32_ZERO,
            r.depth_bias_clamp == F32_ZERO,
            !r.scissor_enable,
            r.line_width == F32_ONE,
    {
        RasterizerState {
            fill_mode: FillMode::Fill,
            cull_mode: CullMode::Back,
            front_face: FrontFace::CounterClockwise,
            depth_bias_enable: false,
            depth_bias_constant: F32_ZERO,
            depth_bias_slope: F32_ZERO,
            depth_bias_clamp: F32_ZERO,
            scissor_enable: false,
            line_width: F32_ONE,
        }
    }
}

#[derive(Debug, Clone, Copy, PartialEq, Eq, Structural)]
pub struct VertexAttribute {
    pub location: u32,
    pub binding: u32,
    pub format: VertexFormat,
    pub offset: u32,
}

#[derive(Debug, Clone, Copy, PartialEq, Eq, Structural)]
pub enum VertexFormat {
    Float32x1,
    Float32x2,
    Float32x3,
    Float32x4,
    Uint32x1,
    Uint32x2,
    Uint32x3,
    Uint32x4,
    Sint32x1,
    Sint32x2,
    Sint32x3,
    Sint32x4,
    Uint8x4Norm,
}

impl VertexFormat {
    /// Four bytes per 32-bit component; four packed bytes for `Uint8x4Norm`.
    pub open spec fn spec_byte_size(&self) -> u32 {
        match self {
            VertexFormat::Float32x1 | VertexFormat::Uint32x1 | VertexFormat::Sint32x1 => 4,
            VertexFormat::Float32x2 | VertexFormat::Uint32x2 | VertexFormat::Sint32x2 => 8,
            VertexFormat::Float32x3 | VertexFormat::Uint32x3 | VertexFormat::Sint32x3 => 12,
            VertexFormat::Float32x4 | VertexFormat::Uint32x4 | VertexFormat::Sint32x4 => 16,
            VertexFormat::Uint8x4Norm => 4,
        }
    }

    pub fn byte_size(&self) -> (r: u32)
        ensures
            r == self.spec_byte_size(),
    {
        match self {
            VertexFormat::Float32x1 | VertexFormat::Uint32x1 | VertexFormat::Sint32x1 => 4,
            VertexFormat::Float32x2 | VertexFormat::Uint32x2 | VertexFormat::Sint32x2 => 8,
            VertexFormat::Float32x3 | VertexFormat::Uint32x3 | VertexFormat::Sint32x3 => 12,
            VertexFormat::Float32x4 | VertexFormat::Uint32x4 | VertexFormat::Sint32x4 => 16,
            VertexFormat::Uint8x4Norm => 4,
        }
    }
}

#[derive(Debug, Clone, Copy, PartialEq, Eq, Structural)]
pub struct VertexBinding {
    pub binding: u32,
    pub stride: u32,
    pub input_rate: VertexInputRate,
}

#[derive(Debug, Clone, Copy, PartialEq, Eq, Structural)]
pub enum VertexInputRate {
    Vertex,
    Instance,
}

#[derive(Debug, Clone)]
pub struct VertexInputState {
    pub bindings: Vec<VertexBinding>,
    pub attributes: Vec<VertexAttribute>,
}

#[derive(Debug, Clone)]
pub struct ShaderModule {
    pub id: u32,
    pub stage: ShaderStage,
    pub entry_point: String,
    pub bytecode: Vec<u8>,
}

#[derive(Debug, Clone, Copy, PartialEq, Eq, Structural)]
pub enum ShaderStage {
    Vertex,
    Fragment,
    Compute,
}

#[derive(Debug, Clone, Copy, PartialEq, Eq, Structural)]
pub struct ColorAttachment {
    pub format: ColorFormat,
    pub blend: BlendState,
}

#[derive(Debug, Clone, Copy, PartialEq, Eq, Structural)]
pub enum ColorFormat {
    Rgba8Unorm,
    Rgba8Srgb,
    Bgra8Unorm,
    Rgba16Float,
}

#[derive(Debug, Clone)]
pub struct RenderPassDescriptor {
    pub color_attachments: Vec<ColorAttachment>,
    pub depth_attachment: Option<DepthAttachment>,
}

#[derive(Debug, Clone, Copy, PartialEq, Eq, Structural)]
pub struct DepthAttachment {
    pub format: DepthFormat,
    pub load_op: LoadOp,
    pub store_op: StoreOp,
}

#[derive(Debug, Clone, Copy, PartialEq, Eq, Structural)]
pub enum DepthFormat {
    Depth32Float,
    Depth24Stencil8,
}

#[derive(Debug, Clone, Copy, PartialEq, Eq, Structural)]
pub enum LoadOp {
    Load,
    Clear,
    DontCare,
}

#[derive(Debug, Clone, Copy, PartialEq, Eq, Structural)]
pub enum StoreOp {
    Store,
    DontCare,
}

#[derive(Debug, Clone)]
pub struct RenderPipelineDescriptor {
    pub vertex_input: VertexInputState,
    pub vertex_shader: ShaderModule,
    pub fragment_shader: ShaderModule,
    pub topology: Topology,
    pub rasterizer: RasterizerState,
    pub depth: DepthState,
    pub stencil: StencilState,
    pub render_pass: RenderPassDescriptor,
}

#[derive(Debug, Clone)]
pub struct RenderPipeline {
    pub id: u32,
    pub descriptor: RenderPipelineDescriptor,
}

impl RenderPipeline {
    pub fn new(id: u32, descriptor: RenderPipelineDescriptor) -> (r: Self)
        ensures
            r.id == id,
            r.descriptor == descriptor,
    {
        RenderPipeline { id, descriptor }
    }
}

#[derive(Debug, Clone, Copy, PartialEq, Eq, Structural)]
pub struct ScissorRect {
    pub x: i32,
    pub y: i32,
    pub width: u32,
    pub height: u32,
}

/// A viewport; every field holds `f32` bits.
#[derive(Debug, Clone, Copy, PartialEq, Eq, Structural)]
pub struct Viewport {
    pub x: u32,
    pub y: u32,
    pub width: u32,
    pub height: u32,
    pub min_depth: u32,
    pub max_depth: u32,
}

#[derive(Debug, Clone)]
pub struct ViewportState {
    pub viewports: Vec<Viewport>,
    pub scissors: Vec<ScissorRect>,
}

} // verus!
