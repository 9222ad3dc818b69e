//! Recorded command execution over software framebuffers, textures and an
//! optional compute manager.
//!
//! Colors and other graphics-API `f32` values in commands are carried as
//! IEEE-754 bit patterns; clear colors become bytes the way
//! `(channel * 255.0) as u8` converts them (see [`crate::channel`]).
//! Rasterization is not part of this library: [`CommandExecutor::draw_vertex_records`]
//! hands out the encoded vertices a draw covers, and a host rasterizer draws them.
use vstd::prelude::*;
use std::collections::HashMap;
use crate::channel::{color_to_rgba8, spec_channel_to_u8};
use crate::compute::{ComputeError, ComputePipelineManager, DispatchWorkgroup};
use crate::framebuffer::{FramebufferError, LinearFramebuffer};
use crate::rasterizer::RasterError;
use crate::render_pipeline::{ScissorRect, Viewport};
use crate::sync::GpuSyncManager;
use crate::text::decimal_string;
use crate::text::spec_decimal;
use crate::wire::{spec_u16_bytes, spec_u32_bytes};
use crate::texture::{Texture, TextureError, TextureManager};
use crate::wire::{copy_range, overwrite, spec_overwrite};

verus! {

broadcast use vstd::std_specs::hash::group_hash_axioms;

/// Bytes of one interleaved software vertex: position (4 x f32), color
/// (4 x f32), texture coordinate (2 x f32) and normal (3 x f32).
pub const SOFTWARE_RENDER_VERTEX_STRIDE: u32 = 52;

#[derive(Debug)]
pub enum ExecutorError {
    Framebuffer(FramebufferError),
    Texture(TextureError),
    Raster(RasterError),
    CommandBufferNotFound(u64),
    PipelineNotBound,
    RenderPassNotActive,
    VertexBufferNotBound(u32),
    IndexBufferNotBound,
    UniformBufferNotBound(u32),
    Generic(String),
    Compute(ComputeError),
    /// A compute dispatch was recorded inside an active render pass.
    ComputeInsideRenderPass,
}

impl ExecutorError {
    pub open spec fn spec_message(&self) -> Seq<char> {
        match self {
            ExecutorError::Framebuffer(e) => "framebuffer error: "@ + e.spec_message(),
            ExecutorError::Texture(e) => "texture error: "@ + e.spec_message(),
            ExecutorError::Raster(e) => "raster error: "@ + e.spec_message(),
            ExecutorError::CommandBufferNotFound(id) => "command buffer not found: "@ + spec_decimal(*id as nat),
            ExecutorError::PipelineNotBound => "pipeline not bound"@,
            ExecutorError::RenderPassNotActive => "render pass not active"@,
            ExecutorError::VertexBufferNotBound(slot) => "vertex buffer slot "@ + spec_decimal(*slot as nat)
                + " not bound"@,
            ExecutorError::IndexBufferNotBound => "index buffer not bound"@,
            ExecutorError::UniformBufferNotBound(slot) => "uniform buffer slot "@ + spec_decimal(*slot as nat)
                + " not bound"@,
            ExecutorError::Generic(m) => "executor error: "@ + m@,
            ExecutorError::Compute(e) => e.spec_message(),
            ExecutorError::ComputeInsideRenderPass => "compute dispatch inside an active render pass"@,
        }
    }

    /// The error's text.
    pub fn message(&self) -> (r: String)
        ensures
            r@ == self.spec_message(),
    {
        match self {
            ExecutorError::Framebuffer(e) => {
                let mut m = String::from_str("framebuffer error: ");
                m.append(e.message().as_str());
                m
            },
            ExecutorError::Texture(e) => {
                let mut m = String::from_str("texture error: ");
                m.append(e.message().as_str());
                m
            },
            ExecutorError::Raster(e) => {
                let mut m = String::from_str("raster error: ");
                m.append(e.message().as_str());
                m
            },
            ExecutorError::CommandBufferNotFound(id) => {
                let mut m = String::from_str("command buffer not found: ");
                m.append(decimal_string(*id).as_str());
                m
            },
            ExecutorError::PipelineNotBound => String::from_str("pipeline not bound"),
            ExecutorError::RenderPassNotActive => String::from_str("render pass not active"),
            ExecutorError::VertexBufferNotBound(slot) => {
                let mut m = String::from_str("vertex buffer slot ");
                m.append(decimal_string(*slot as u64).as_str());
                m.append(" not bound");
                m
            },
            ExecutorError::IndexBufferNotBound => String::from_str("index buffer not bound"),
            ExecutorError::UniformBufferNotBound(slot) => {
                let mut m = String::from_str("uniform buffer slot ");
                m.append(decimal_string(*slot as u64).as_str());
                m.append(" not bound");
                m
            },
            ExecutorError::Generic(detail) => {
                let mut m = String::from_str("executor error: ");
                m.append(detail.as_str());
                m
            },
            ExecutorError::Compute(e) => e.message(),
            ExecutorError::ComputeInsideRenderPass => String::from_str(
                "compute dispatch inside an active render pass",
            ),
        }
    }
}

#[derive(Debug, Clone)]
pub struct VertexBuffer {
    pub data: Vec<u8>,
    pub stride: u32,
}

#[derive(Debug, Clone)]
pub struct IndexBuffer {
    pub data: Vec<u8>,
    pub index_type: IndexType,
}

#[derive(Debug, Clone, Copy, PartialEq, Eq, Structural)]
pub enum IndexType {
    Uint16,
    Uint32,
}

#[derive(Debug, Clone)]
pub struct UniformBuffer {
    pub data: Vec<u8>,
}

/// A recorded command. Colors, depths and the line width hold `f32` bits.
#[derive(Debug, Clone)]
pub enum GpuCommand {
    BeginRenderPass { clear_color: [u32; 4], clear_depth: u32 },
    EndRenderPass,
    BindPipeline(u32),
    BindVertexBuffer { slot: u32, buffer_id: u64 },
    BindIndexBuffer { buffer_id: u64, index_type: IndexType },
    BindUniformBuffer { slot: u32, buffer_id: u64 },
    BindTexture { slot: u32, texture_id: u32, sampler_id: u32 },
    Draw { vertex_count: u32, first_vertex: u32 },
    DrawIndexed { index_count: u32, first_index: u32, vertex_offset: i32 },
    DrawInstanced { vertex_count: u32, instance_count: u32, first_vertex: u32, first_instance: u32 },
    DrawIndexedInstanced {
        index_count: u32,
        instance_count: u32,
        first_index: u32,
        vertex_offset: i32,
        first_instance: u32,
    },
    SetViewport(Viewport),
    SetScissor(ScissorRect),
    SetLineWidth(u32),
    PushConstants { offset: u32, data: Vec<u8> },
    CopyBufferToTexture { buffer_id: u64, texture_id: u32 },
    CopyTextureToBuffer { texture_id: u32, buffer_id: u64 },
    ClearTexture { texture_id: u32, color: [u32; 4] },
    GenerateMipmaps(u32),
    DispatchCompute { pipeline_id: u32, x: u32, y: u32, z: u32 },
}

#[derive(Debug, Clone)]
pub struct RecordedCommandBuffer {
    pub commands: Vec<GpuCommand>,
}

#[derive(Debug, Clone, Copy)]
enum DrawCall {
    Draw { first_vertex: u32, vertex_count: u32 },
    DrawIndexed { first_index: u32, index_count: u32, vertex_offset: i32 },
    DrawInstanced { first_vertex: u32, vertex_count: u32, instance_count: u32, first_instance: u32 },
    DrawIndexedInstanced {
        first_index: u32,
        index_count: u32,
        instance_count: u32,
        vertex_offset: i32,
        first_instance: u32,
    },
}

struct BoundState {
    pipeline_id: Option<u32>,
    vertex_buffers: HashMap<u32, u64>,
    index_buffer: Option<(u64, IndexType)>,
    uniform_buffers: HashMap<u32, u64>,
    textures: HashMap<u32, (u32, u32)>,
    viewport: Option<Viewport>,
    scissor: Option<ScissorRect>,
}

struct RenderPassState {
    framebuffer: usize,
    clear_color: [u32; 4],
    clear_depth: u32,
    draw_calls: Vec<DrawCall>,
}

/// Which part of the bound state a command replaces.
pub enum BoundPart {
    Nothing,
    Pipeline,
    Vertex,
    Index,
    Uniform,
    Textures,
    Viewport,
    Scissor,
}

/// The bytes a color's four `f32` channels convert to.
pub open spec fn spec_rgba8(c: [u32; 4]) -> Seq<u8> {
    seq![spec_channel_to_u8(c[0]), spec_channel_to_u8(c[1]), spec_channel_to_u8(c[2]), spec_channel_to_u8(c[3])]
}

/// `d` with every whole four-byte chunk replaced by `c`; a shorter tail stays.
pub open spec fn spec_fill4(d: Seq<u8>, c: Seq<u8>) -> Seq<u8> {
    Seq::new(d.len(), |i: int| if i < 4 * (d.len() / 4) { c[i % 4] } else { d[i] })
}

/// `new` is `old` cleared to `c` over the whole frame.
pub open spec fn spec_cleared(old: LinearFramebuffer, new: LinearFramebuffer, c: Seq<u8>) -> bool {
    &&& new.spec_rect_frame(&old, 0, 0, old.spec_width() as int, old.spec_height() as int)
    &&& old.spec_rows_disjoint() ==> forall|px: int, py: int|
        0 <= px < old.spec_width() && 0 <= py < old.spec_height() ==> #[trigger] new.spec_pixel(px, py) == c
}

/// Every frame can be cleared without reaching past its bytes.
pub open spec fn spec_frames_stored(f: Seq<LinearFramebuffer>) -> bool {
    forall|i: int| 0 <= i < f.len() ==> (#[trigger] f[i]).spec_rect_stored(
        0,
        0,
        f[i].spec_width() as int,
        f[i].spec_height() as int,
    )
}

/// The textures' bytes after `data` is uploaded to texture `id`, where it fits exactly.
pub open spec fn spec_upload(t: Map<u32, Texture>, id: u32, data: Seq<u8>, t2: Map<u32, Texture>) -> bool {
    if t.contains_key(id) && data.len() == t[id].descriptor.spec_data_size() {
        &&& t2.dom() == t.dom()
        &&& forall|k: u32| k != id ==> #[trigger] t2[k] == t[k]
        &&& t2[id].id == t[id].id
        &&& t2[id].descriptor == t[id].descriptor
        &&& t2[id].data@ == data
    } else {
        t2 == t
    }
}

/// The buffer bytes after the longest common prefix of `src` is copied over them.
pub open spec fn spec_copy_prefix(dst: Seq<u8>, src: Seq<u8>) -> Seq<u8> {
    let n = if src.len() < dst.len() {
        src.len()
    } else {
        dst.len()
    };
    spec_overwrite(dst, 0, src.subrange(0, n as int))
}

/// `e` is what a dispatch of `(x, y, z)` groups on pipeline `pid` answers,
/// given the compute manager `m`, if any.
pub open spec fn spec_dispatch_error(m: Option<ComputePipelineManager>, pid: u32, wg: DispatchWorkgroup, e: ComputeError) -> bool {
    match m {
        None => e is BackendUnavailable,
        Some(mgr) => if mgr.spec_dispatch_admits(pid, wg, true) {
            e is BackendUnavailable
        } else {
            mgr.spec_dispatch_rejects(pid, wg, true, e)
        },
    }
}

/// Copies the longest common prefix of `src` over `dst`.
fn copy_prefix(dst: &mut Vec<u8>, src: &[u8])
    ensures
        final(dst)@ == spec_copy_prefix(old(dst)@, src@),
{
    let n = if src.len() < dst.len() {
        src.len()
    } else {
        dst.len()
    };
    let head = copy_range(src, 0, n);
    overwrite(dst, 0, head.as_slice());
}

/// Writes `c` over every whole four-byte chunk of `data`.
fn fill4(data: &mut Vec<u8>, c: [u8; 4])
    ensures
        final(data)@ == spec_fill4(old(data)@, c@),
{
    let n = data.len();
    let whole = 4 * (n / 4);
    let mut i: usize = 0;
    while i < whole
        invariant
            data@.len() == n,
            n == old(data)@.len(),
            whole == 4 * (n / 4),
            i <= whole,
            forall|j: int| 0 <= j < i ==> #[trigger] data@[j] == c@[j % 4],
            forall|j: int| i <= j < n ==> #[trigger] data@[j] == old(data)@[j],
        decreases whole - i,
    {
        data.set(i, c[i % 4]);
        i = i + 1;
    }
    assert(data@ =~= spec_fill4(old(data)@, c@));
}

/// The views of a list of byte vectors.
pub open spec fn spec_views_of(v: Seq<Vec<u8>>) -> Seq<Seq<u8>> {
    v.map_values(|x: Vec<u8>| x@)
}

/// The records of `data` that start at each of `bases` and lie wholly
/// inside it, in order.
pub open spec fn spec_vertex_records(data: Seq<u8>, bases: Seq<int>) -> Seq<Seq<u8>>
    decreases bases.len(),
{
    if bases.len() == 0 {
        Seq::empty()
    } else {
        let prev = spec_vertex_records(data, bases.drop_last());
        let b = bases.last();
        if 0 <= b && b + 52 <= data.len() {
            prev.push(data.subrange(b, b + 52))
        } else {
            prev
        }
    }
}

/// Index `at` of an index buffer: little-endian, 0 where it lies outside.
pub open spec fn spec_read_index(data: Seq<u8>, at: int, ty: IndexType) -> int {
    match ty {
        IndexType::Uint16 => if 2 * at + 2 <= data.len() {
            data[2 * at] + 256 * data[2 * at + 1]
        } else {
            0
        },
        IndexType::Uint32 => if 4 * at + 4 <= data.len() {
            data[4 * at] + 256 * data[4 * at + 1] + 65536 * data[4 * at + 2] + 16777216 * data[4
                * at + 3]
        } else {
            0
        },
    }
}

/// The first byte of the vertex index `at` names, offset by `offset` and
/// clamped at zero.
pub open spec fn spec_indexed_base(data: Seq<u8>, at: int, ty: IndexType, offset: i32) -> int {
    let v = spec_read_index(data, at, ty) + offset;
    if v < 0 {
        0
    } else {
        v * 52
    }
}

/// Reads index `at` of an index buffer.
fn read_index(data: &[u8], at: u64, ty: IndexType) -> (r: u32)
    ensures
        r == spec_read_index(data@, at as int, ty),
{
    match ty {
        IndexType::Uint16 => {
            if at < (data.len() as u64) / 2 {
                let k = (2 * at) as usize;
                data[k] as u32 + 256 * data[k + 1] as u32
            } else {
                0
            }
        },
        IndexType::Uint32 => {
            if at < (data.len() as u64) / 4 {
                let k = (4 * at) as usize;
                data[k] as u32 + 256 * data[k + 1] as u32 + 65536 * data[k + 2] as u32 + 16777216
                    * data[k + 3] as u32
            } else {
                0
            }
        },
    }
}

/// Appends the record starting at `base` when it lies wholly inside `data`.
fn push_record(recs: &mut Vec<Vec<u8>>, data: &[u8], base: u64)
    ensures
        spec_views_of(final(recs)@) == if base + 52 <= data@.len() {
            spec_views_of(old(recs)@).push(data@.subrange(base as int, base + 52))
        } else {
            spec_views_of(old(recs)@)
        },
{
    if base <= data.len() as u64 && data.len() as u64 - base >= 52 {
        let rec = copy_range(data, base as usize, (base + 52) as usize);
        recs.push(rec);
        assert(spec_views_of(recs@) =~= spec_views_of(old(recs)@).push(data@.subrange(base as int, base + 52)));
    }
}

pub struct CommandExecutor {
    vertex_buffers: HashMap<u64, VertexBuffer>,
    index_buffers: HashMap<u64, IndexBuffer>,
    uniform_buffers: HashMap<u64, UniformBuffer>,
    next_buffer_id: u64,
    bound: BoundState,
    active_pass: Option<RenderPassState>,
    executed_commands: u64,
}

impl CommandExecutor {
    pub closed spec fn spec_vertex_buffers(&self) -> Map<u64, VertexBuffer> {
        self.vertex_buffers@
    }

    pub closed spec fn spec_index_buffers(&self) -> Map<u64, IndexBuffer> {
        self.index_buffers@
    }

    pub closed spec fn spec_uniform_buffers(&self) -> Map<u64, UniformBuffer> {
        self.uniform_buffers@
    }

    pub closed spec fn spec_next_buffer_id(&self) -> u64 {
        self.next_buffer_id
    }

    pub closed spec fn spec_bound_pipeline(&self) -> Option<u32> {
        self.bound.pipeline_id
    }

    pub closed spec fn spec_bound_vertex(&self) -> Map<u32, u64> {
        self.bound.vertex_buffers@
    }

    pub closed spec fn spec_bound_index(&self) -> Option<(u64, IndexType)> {
        self.bound.index_buffer
    }

    pub closed spec fn spec_bound_uniform(&self) -> Map<u32, u64> {
        self.bound.uniform_buffers@
    }

    pub closed spec fn spec_bound_textures(&self) -> Map<u32, (u32, u32)> {
        self.bound.textures@
    }

    pub closed spec fn spec_viewport(&self) -> Option<Viewport> {
        self.bound.viewport
    }

    pub closed spec fn spec_scissor(&self) -> Option<ScissorRect> {
        self.bound.scissor
    }

    /// The active render pass: its framebuffer and the draws recorded in it.
    pub closed spec fn spec_pass(&self) -> Option<(usize, nat)> {
        match self.active_pass {
            Some(p) => Some((p.framebuffer, p.draw_calls@.len())),
            None => None,
        }
    }

    pub closed spec fn spec_executed(&self) -> u64 {
        self.executed_commands
    }

    /// Buffer ids in use are below the next one.
    pub closed spec fn wf(&self) -> bool {
        &&& 1 <= self.next_buffer_id
        &&& forall|k: u64| #[trigger] self.vertex_buffers@.contains_key(k) ==> k < self.next_buffer_id
        &&& forall|k: u64| #[trigger] self.index_buffers@.contains_key(k) ==> k < self.next_buffer_id
        &&& forall|k: u64| #[trigger] self.uniform_buffers@.contains_key(k) ==> k < self.next_buffer_id
    }

    /// Same buffers, same next id.
    pub open spec fn spec_same_resources(&self, b: &Self) -> bool {
        &&& self.spec_vertex_buffers() == b.spec_vertex_buffers()
        &&& self.spec_index_buffers() == b.spec_index_buffers()
        &&& self.spec_uniform_buffers() == b.spec_uniform_buffers()
        &&& self.spec_next_buffer_id() == b.spec_next_buffer_id()
    }

    /// The bound state is the same except possibly `part`.
    pub open spec fn spec_same_bound_except(&self, b: &Self, part: BoundPart) -> bool {
        &&& (part is Pipeline || self.spec_bound_pipeline() == b.spec_bound_pipeline())
        &&& (part is Vertex || self.spec_bound_vertex() == b.spec_bound_vertex())
        &&& (part is Index || self.spec_bound_index() == b.spec_bound_index())
        &&& (part is Uniform || self.spec_bound_uniform() == b.spec_bound_uniform())
        &&& (part is Textures || self.spec_bound_textures() == b.spec_bound_textures())
        &&& (part is Viewport || self.spec_viewport() == b.spec_viewport())
        &&& (part is Scissor || self.spec_scissor() == b.spec_scissor())
    }

    /// Only the bound `part` may differ.
    pub open spec fn spec_only_bound(&self, b: &Self, part: BoundPart) -> bool {
        &&& self.spec_same_resources(b)
        &&& self.spec_same_bound_except(b, part)
        &&& self.spec_pass() == b.spec_pass()
        &&& self.spec_executed() == b.spec_executed()
    }

    /// One command run on executor `e1`, textures `t1` and framebuffers `f1`,
    /// with compute manager `m`, leaves `e2`, `t2`, `f2` and answers `r`.
    pub open spec fn spec_step(
        e1: &Self,
        t1: Map<u32, Texture>,
        f1: Seq<LinearFramebuffer>,
        cmd: GpuCommand,
        m: Option<ComputePipelineManager>,
        e2: &Self,
        t2: Map<u32, Texture>,
        f2: Seq<LinearFramebuffer>,
        r: Result<(), ExecutorError>,
    ) -> bool {
        match cmd {
            GpuCommand::BeginRenderPass { clear_color, clear_depth } => {
                &&& r is Ok
                &&& e2.spec_same_resources(e1)
                &&& e2.spec_same_bound_except(e1, BoundPart::Nothing)
                &&& e2.spec_executed() == e1.spec_executed()
                &&& e2.spec_pass() == Some((0usize, 0nat))
                &&& t2 == t1
                &&& f2.len() == f1.len()
                &&& (f1.len() > 0 ==> spec_cleared(f1[0], f2[0], spec_rgba8(clear_color)))
                &&& forall|i: int| 1 <= i < f1.len() ==> #[trigger] f2[i] == f1[i]
            },
            GpuCommand::EndRenderPass => {
                &&& r is Ok
                &&& e2.spec_same_resources(e1)
                &&& e2.spec_same_bound_except(e1, BoundPart::Nothing)
                &&& e2.spec_executed() == e1.spec_executed()
                &&& e2.spec_pass() is None
                &&& t2 == t1
                &&& f2 == f1
            },
            GpuCommand::BindPipeline(id) => r is Ok && e2.spec_only_bound(e1, BoundPart::Pipeline)
                && e2.spec_bound_pipeline() == Some(id) && t2 == t1 && f2 == f1,
            GpuCommand::BindVertexBuffer { slot, buffer_id } => r is Ok && e2.spec_only_bound(
                e1,
                BoundPart::Vertex,
            ) && e2.spec_bound_vertex() == e1.spec_bound_vertex().insert(slot, buffer_id) && t2 == t1
                && f2 == f1,
            GpuCommand::BindIndexBuffer { buffer_id, index_type } => r is Ok && e2.spec_only_bound(
                e1,
                BoundPart::Index,
            ) && e2.spec_bound_index() == Some((buffer_id, index_type)) && t2 == t1 && f2 == f1,
            GpuCommand::BindUniformBuffer { slot, buffer_id } => r is Ok && e2.spec_only_bound(
                e1,
                BoundPart::Uniform,
            ) && e2.spec_bound_uniform() == e1.spec_bound_uniform().insert(slot, buffer_id) && t2 == t1
                && f2 == f1,
            GpuCommand::BindTexture { slot, texture_id, sampler_id } => r is Ok && e2.spec_only_bound(
                e1,
                BoundPart::Textures,
            ) && e2.spec_bound_textures() == e1.spec_bound_textures().insert(
                slot,
                (texture_id, sampler_id),
            ) && t2 == t1 && f2 == f1,
            GpuCommand::Draw { .. } | GpuCommand::DrawIndexed { .. } | GpuCommand::DrawInstanced { .. }
            | GpuCommand::DrawIndexedInstanced { .. } => {
                &&& r is Ok
                &&& e2.spec_same_resources(e1)
                &&& e2.spec_same_bound_except(e1, BoundPart::Nothing)
                &&& t2 == t1
                &&& f2 == f1
                &&& match e1.spec_pass() {
                    Some((fb, n)) => e2.spec_pass() == Some((fb, n + 1)) && e2.spec_executed()
                        == e1.spec_executed() + 1,
                    None => e2.spec_pass() is None && e2.spec_executed() == e1.spec_executed(),
                }
            },
            GpuCommand::SetViewport(vp) => r is Ok && e2.spec_only_bound(e1, BoundPart::Viewport)
                && e2.spec_viewport() == Some(vp) && t2 == t1 && f2 == f1,
            GpuCommand::SetScissor(rect) => r is Ok && e2.spec_only_bound(e1, BoundPart::Scissor)
                && e2.spec_scissor() == Some(rect) && t2 == t1 && f2 == f1,
            GpuCommand::CopyBufferToTexture { buffer_id, texture_id } => {
                &&& r is Ok
                &&& e2.spec_only_bound(e1, BoundPart::Nothing)
                &&& f2 == f1
                &&& if e1.spec_vertex_buffers().contains_key(buffer_id) {
                    spec_upload(t1, texture_id, e1.spec_vertex_buffers()[buffer_id].data@, t2)
                } else {
                    t2 == t1
                }
            },
            GpuCommand::CopyTextureToBuffer { texture_id, buffer_id } => {
                &&& r is Ok
                &&& t2 == t1
                &&& f2 == f1
                &&& e2.spec_same_bound_except(e1, BoundPart::Nothing)
                &&& e2.spec_pass() == e1.spec_pass()
                &&& e2.spec_executed() == e1.spec_executed()
                &&& e2.spec_index_buffers() == e1.spec_index_buffers()
                &&& e2.spec_uniform_buffers() == e1.spec_uniform_buffers()
                &&& e2.spec_next_buffer_id() == e1.spec_next_buffer_id()
                &&& if t1.contains_key(texture_id) && e1.spec_vertex_buffers().contains_key(buffer_id) {
                    let old_buf = e1.spec_vertex_buffers()[buffer_id];
                    &&& e2.spec_vertex_buffers().dom() == e1.spec_vertex_buffers().dom()
                    &&& forall|k: u64| k != buffer_id ==> #[trigger] e2.spec_vertex_buffers()[k]
                        == e1.spec_vertex_buffers()[k]
                    &&& e2.spec_vertex_buffers()[buffer_id].stride == old_buf.stride
                    &&& e2.spec_vertex_buffers()[buffer_id].data@ == spec_copy_prefix(
                        old_buf.data@,
                        t1[texture_id].data@,
                    )
                } else {
                    e2.spec_vertex_buffers() == e1.spec_vertex_buffers()
                }
            },
            GpuCommand::ClearTexture { texture_id, color } => {
                &&& r is Ok
                &&& e2.spec_only_bound(e1, BoundPart::Nothing)
                &&& f2 == f1
                &&& if t1.contains_key(texture_id) {
                    &&& t2.dom() == t1.dom()
                    &&& forall|k: u32| k != texture_id ==> #[trigger] t2[k] == t1[k]
                    &&& t2[texture_id].id == t1[texture_id].id
                    &&& t2[texture_id].descriptor == t1[texture_id].descriptor
                    &&& t2[texture_id].data@ == spec_fill4(t1[texture_id].data@, spec_rgba8(color))
                } else {
                    t2 == t1
                }
            },
            GpuCommand::DispatchCompute { pipeline_id, x, y, z } => {
                &&& *e2 == *e1
                &&& t2 == t1
                &&& f2 == f1
                &&& if e1.spec_pass() is Some {
                    r matches Err(ExecutorError::ComputeInsideRenderPass)
                } else {
                    r matches Err(ExecutorError::Compute(ce)) && spec_dispatch_error(
                        m,
                        pipeline_id,
                        DispatchWorkgroup { x, y, z },
                        ce,
                    )
                }
            },
            _ => r is Ok && e2.spec_only_bound(e1, BoundPart::Nothing) && t2 == t1 && f2 == f1,
        }
    }

    pub fn new() -> (r: Self)
        ensures
            r.wf(),
            r.spec_vertex_buffers().is_empty(),
            r.spec_index_buffers().is_empty(),
            r.spec_uniform_buffers().is_empty(),
            r.spec_next_buffer_id() == 1,
            r.spec_bound_pipeline() is None,
            r.spec_bound_vertex().is_empty(),
            r.spec_bound_index() is None,
            r.spec_bound_uniform().is_empty(),
            r.spec_bound_textures().is_empty(),
            r.spec_viewport() is None,
            r.spec_scissor() is None,
            r.spec_pass() is None,
            r.spec_executed() == 0,
    {
        CommandExecutor {
            vertex_buffers: HashMap::new(),
            index_buffers: HashMap::new(),
            uniform_buffers: HashMap::new(),
            next_buffer_id: 1,
            bound: BoundState {
                pipeline_id: None,
                vertex_buffers: HashMap::new(),
                index_buffer: None,
                uniform_buffers: HashMap::new(),
                textures: HashMap::new(),
                viewport: None,
                scissor: None,
            },
            active_pass: None,
            executed_commands: 0,
        }
    }

    pub fn create_vertex_buffer(&mut self, data: Vec<u8>, stride: u32) -> (r: u64)
        requires
            old(self).wf(),
            old(self).spec_next_buffer_id() < u64::MAX,
        ensures
            final(self).wf(),
            r == old(self).spec_next_buffer_id(),
            !old(self).spec_vertex_buffers().contains_key(r),
            final(self).spec_vertex_buffers() == old(self).spec_vertex_buffers().insert(
                r,
                VertexBuffer { data, stride },
            ),
            final(self).spec_next_buffer_id() == r + 1,
            final(self).spec_index_buffers() == old(self).spec_index_buffers(),
            final(self).spec_uniform_buffers() == old(self).spec_uniform_buffers(),
            final(self).spec_same_bound_except(&*old(self), BoundPart::Nothing),
            final(self).spec_pass() == old(self).spec_pass(),
            final(self).spec_executed() == old(self).spec_executed(),
    {
        let id = self.next_buffer_id;
        self.next_buffer_id = self.next_buffer_id + 1;
        self.vertex_buffers.insert(id, VertexBuffer { data, stride });
        assert forall|k: u64| #[trigger] self.vertex_buffers@.contains_key(k) implies k < self.next_buffer_id by {
            if k != id {
                assert(old(self).vertex_buffers@.contains_key(k));
            }
        }
        assert forall|k: u64| #[trigger] self.index_buffers@.contains_key(k) implies k < self.next_buffer_id by {
            assert(old(self).index_buffers@.contains_key(k));
        }
        assert forall|k: u64| #[trigger] self.uniform_buffers@.contains_key(k) implies k < self.next_buffer_id by {
            assert(old(self).uniform_buffers@.contains_key(k));
        }
        id
    }

    pub fn create_index_buffer(&mut self, data: Vec<u8>, index_type: IndexType) -> (r: u64)
        requires
            old(self).wf(),
            old(self).spec_next_buffer_id() < u64::MAX,
        ensures
            final(self).wf(),
            r == old(self).spec_next_buffer_id(),
            !old(self).spec_index_buffers().contains_key(r),
            final(self).spec_index_buffers() == old(self).spec_index_buffers().insert(
                r,
                IndexBuffer { data, index_type },
            ),
            final(self).spec_next_buffer_id() == r + 1,
            final(self).spec_vertex_buffers() == old(self).spec_vertex_buffers(),
            final(self).spec_uniform_buffers() == old(self).spec_uniform_buffers(),
            final(self).spec_same_bound_except(&*old(self), BoundPart::Nothing),
            final(self).spec_pass() == old(self).spec_pass(),
            final(self).spec_executed() == old(self).spec_executed(),
    {
        let id = self.next_buffer_id;
        self.next_buffer_id = self.next_buffer_id + 1;
        self.index_buffers.insert(id, IndexBuffer { data, index_type });
        assert forall|k: u64| #[trigger] self.index_buffers@.contains_key(k) implies k < self.next_buffer_id by {
            if k != id {
                assert(old(self).index_buffers@.contains_key(k));
            }
        }
        assert forall|k: u64| #[trigger] self.vertex_buffers@.contains_key(k) implies k < self.next_buffer_id by {
            assert(old(self).vertex_buffers@.contains_key(k));
        }
        assert forall|k: u64| #[trigger] self.uniform_buffers@.contains_key(k) implies k < self.next_buffer_id by {
            assert(old(self).uniform_buffers@.contains_key(k));
        }
        id
    }

    pub fn create_uniform_buffer(&mut self, data: Vec<u8>) -> (r: u64)
        requires
            old(self).wf(),
            old(self).spec_next_buffer_id() < u64::MAX,
        ensures
            final(self).wf(),
            r == old(self).spec_next_buffer_id(),
            !old(self).spec_uniform_buffers().contains_key(r),
            final(self).spec_uniform_buffers() == old(self).spec_uniform_buffers().insert(
                r,
                UniformBuffer { data },
            ),
            final(self).spec_next_buffer_id() == r + 1,
            final(self).spec_vertex_buffers() == old(self).spec_vertex_buffers(),
            final(self).spec_index_buffers() == old(self).spec_index_buffers(),
            final(self).spec_same_bound_except(&*old(self), BoundPart::Nothing),
            final(self).spec_pass() == old(self).spec_pass(),
            final(self).spec_executed() == old(self).spec_executed(),
    {
        let id = self.next_buffer_id;
        self.next_buffer_id = self.next_buffer_id + 1;
        self.uniform_buffers.insert(id, UniformBuffer { data });
        assert forall|k: u64| #[trigger] self.uniform_buffers@.contains_key(k) implies k < self.next_buffer_id by {
            if k != id {
                assert(old(self).uniform_buffers@.contains_key(k));
            }
        }
        assert forall|k: u64| #[trigger] self.vertex_buffers@.contains_key(k) implies k < self.next_buffer_id by {
            assert(old(self).vertex_buffers@.contains_key(k));
        }
        assert forall|k: u64| #[trigger] self.index_buffers@.contains_key(k) implies k < self.next_buffer_id by {
            assert(old(self).index_buffers@.contains_key(k));
        }
        id
    }

    /// Copies the longest common prefix of `data` into vertex buffer `id`.
    pub fn write_vertex_buffer(&mut self, id: u64, data: &[u8]) -> (r: Result<(), ExecutorError>)
        requires
            old(self).wf(),
        ensures
            final(self).wf(),
            final(self).spec_index_buffers() == old(self).spec_index_buffers(),
            final(self).spec_uniform_buffers() == old(self).spec_uniform_buffers(),
            final(self).spec_next_buffer_id() == old(self).spec_next_buffer_id(),
            final(self).spec_same_bound_except(&*old(self), BoundPart::Nothing),
            final(self).spec_pass() == old(self).spec_pass(),
            final(self).spec_executed() == old(self).spec_executed(),
            r is Ok <==> old(self).spec_vertex_buffers().contains_key(id),
            r matches Err(e) ==> (e matches ExecutorError::Generic(m) && m@ == "vertex buffer "@
                + spec_decimal(id as nat) + " not found"@) && final(self).spec_vertex_buffers()
                == old(self).spec_vertex_buffers(),
            r is Ok ==> {
                &&& final(self).spec_vertex_buffers().dom() == old(self).spec_vertex_buffers().dom()
                &&& forall|k: u64| k != id ==> #[trigger] final(self).spec_vertex_buffers()[k]
                    == old(self).spec_vertex_buffers()[k]
                &&& final(self).spec_vertex_buffers()[id].stride == old(self).spec_vertex_buffers()[id].stride
                &&& final(self).spec_vertex_buffers()[id].data@ == spec_copy_prefix(
                    old(self).spec_vertex_buffers()[id].data@,
                    data@,
                )
            },
    {
        let mut buf = match self.vertex_buffers.remove(&id) {
            Some(b) => b,
            None => {
                let mut m = String::from_str("vertex buffer ");
                m.append(decimal_string(id).as_str());
                m.append(" not found");
                return Err(ExecutorError::Generic(m));
            },
        };
        copy_prefix(&mut buf.data, data);
        self.vertex_buffers.insert(id, buf);
        assert forall|k: u64| #[trigger] self.vertex_buffers@.contains_key(k) implies k < self.next_buffer_id by {
            assert(old(self).vertex_buffers@.contains_key(k));
        }
        assert(self.vertex_buffers@.dom() =~= old(self).vertex_buffers@.dom());
        Ok(())
    }

    /// Copies the longest common prefix of `data` into uniform buffer `id`.
    pub fn write_uniform_buffer(&mut self, id: u64, data: &[u8]) -> (r: Result<(), ExecutorError>)
        requires
            old(self).wf(),
        ensures
            final(self).wf(),
            final(self).spec_index_buffers() == old(self).spec_index_buffers(),
            final(self).spec_vertex_buffers() == old(self).spec_vertex_buffers(),
            final(self).spec_next_buffer_id() == old(self).spec_next_buffer_id(),
            final(self).spec_same_bound_except(&*old(self), BoundPart::Nothing),
            final(self).spec_pass() == old(self).spec_pass(),
            final(self).spec_executed() == old(self).spec_executed(),
            r is Ok <==> old(self).spec_uniform_buffers().contains_key(id),
            r matches Err(e) ==> (e matches ExecutorError::Generic(m) && m@ == "uniform buffer "@
                + spec_decimal(id as nat) + " not found"@) && final(self).spec_uniform_buffers()
                == old(self).spec_uniform_buffers(),
            r is Ok ==> {
                &&& final(self).spec_uniform_buffers().dom() == old(self).spec_uniform_buffers().dom()
                &&& forall|k: u64| k != id ==> #[trigger] final(self).spec_uniform_buffers()[k]
                    == old(self).spec_uniform_buffers()[k]
                &&& final(self).spec_uniform_buffers()[id].data@ == spec_copy_prefix(
                    old(self).spec_uniform_buffers()[id].data@,
                    data@,
                )
            },
    {
        let mut buf = match self.uniform_buffers.remove(&id) {
            Some(b) => b,
            None => {
                let mut m = String::from_str("uniform buffer ");
                m.append(decimal_string(id).as_str());
                m.append(" not found");
                return Err(ExecutorError::Generic(m));
            },
        };
        copy_prefix(&mut buf.data, data);
        self.uniform_buffers.insert(id, buf);
        assert forall|k: u64| #[trigger] self.uniform_buffers@.contains_key(k) implies k < self.next_buffer_id by {
            assert(old(self).uniform_buffers@.contains_key(k));
        }
        assert(self.uniform_buffers@.dom() =~= old(self).uniform_buffers@.dom());
        Ok(())
    }

    pub fn executed_command_count(&self) -> (r: u64)
        ensures
            r == self.spec_executed(),
    {
        self.executed_commands
    }

    pub fn reset_stats(&mut self)
        requires
            old(self).wf(),
        ensures
            final(self).wf(),
            final(self).spec_executed() == 0,
            final(self).spec_only_bound_or_count(&*old(self)),
    {
        self.executed_commands = 0;
    }

    /// Everything but the executed count is the same.
    pub open spec fn spec_only_bound_or_count(&self, b: &Self) -> bool {
        &&& self.spec_same_resources(b)
        &&& self.spec_same_bound_except(b, BoundPart::Nothing)
        &&& self.spec_pass() == b.spec_pass()
    }

    /// The dispatch a command asks a host compute backend for: `Ok(None)` for
    /// any other command, the pipeline and workgroups of a dispatch outside a
    /// render pass, and [`ExecutorError::ComputeInsideRenderPass`] inside one.
    pub fn dispatch_request(&self, cmd: &GpuCommand) -> (r: Result<Option<(u32, DispatchWorkgroup)>, ExecutorError>)
        ensures
            match *cmd {
                GpuCommand::DispatchCompute { pipeline_id, x, y, z } => if self.spec_pass() is Some {
                    r matches Err(ExecutorError::ComputeInsideRenderPass)
                } else {
                    r == Ok::<Option<(u32, DispatchWorkgroup)>, ExecutorError>(
                        Some((pipeline_id, DispatchWorkgroup { x, y, z })),
                    )
                },
                _ => r == Ok::<Option<(u32, DispatchWorkgroup)>, ExecutorError>(None),
            },
    {
        match cmd {
            GpuCommand::DispatchCompute { pipeline_id, x, y, z } => {
                if self.active_pass.is_some() {
                    Err(ExecutorError::ComputeInsideRenderPass)
                } else {
                    Ok(Some((*pipeline_id, DispatchWorkgroup { x: *x, y: *y, z: *z })))
                }
            },
            _ => Ok(None),
        }
    }

    /// Takes the outcome of a dispatch that a host backend ran for
    /// [`Self::dispatch_request`]: a completed dispatch is counted, a failed
    /// one is reported as [`ExecutorError::Compute`] and changes nothing.
    pub fn finish_dispatch(&mut self, outcome: Result<(), ComputeError>) -> (r: Result<(), ExecutorError>)
        requires
            old(self).wf(),
            old(self).spec_executed() < u64::MAX,
        ensures
            final(self).wf(),
            final(self).spec_only_bound_or_count(&*old(self)),
            match outcome {
                Ok(()) => r is Ok && final(self).spec_executed() == old(self).spec_executed() + 1,
                Err(e) => (r matches Err(ExecutorError::Compute(ce)) && ce == e) && final(self).spec_executed()
                    == old(self).spec_executed(),
            },
    {
        match outcome {
            Ok(()) => {
                self.executed_commands = self.executed_commands + 1;
                Ok(())
            },
            Err(e) => Err(ExecutorError::Compute(e)),
        }
    }

    /// Runs one command. The result and the new state are as [`Self::spec_step`]
    /// describes.
    pub fn execute_command(
        &mut self,
        cmd: &GpuCommand,
        framebuffers: &mut [LinearFramebuffer],
        textures: &mut TextureManager,
        manager: Option<&ComputePipelineManager>,
    ) -> (r: Result<(), ExecutorError>)
        requires
            old(self).wf(),
            old(textures).wf(),
            spec_frames_stored(old(framebuffers)@),
            old(self).spec_executed() < u64::MAX,
        ensures
            final(self).wf(),
            final(textures).wf(),
            spec_frames_stored(final(framebuffers)@),
            final(textures).spec_samplers() == old(textures).spec_samplers(),
            final(textures).spec_next_id() == old(textures).spec_next_id(),
            final(textures).spec_next_sampler_id() == old(textures).spec_next_sampler_id(),
            Self::spec_step(
                &*old(self),
                old(textures).spec_textures(),
                old(framebuffers)@,
                *cmd,
                match manager {
                    Some(m) => Some(*m),
                    None => None,
                },
                &*final(self),
                final(textures).spec_textures(),
                final(framebuffers)@,
                r,
            ),
    {
        match cmd {
            GpuCommand::BeginRenderPass { clear_color, clear_depth } => {
                if 0 < framebuffers.len() {
                    let c = color_to_rgba8(*clear_color);
                    assert(c@ =~= spec_rgba8(*clear_color));
                    framebuffers[0].clear(c);
                    assert forall|i: int| 0 <= i < framebuffers@.len() implies (#[trigger] framebuffers@[i]).spec_rect_stored(
                        0,
                        0,
                        framebuffers@[i].spec_width() as int,
                        framebuffers@[i].spec_height() as int,
                    ) by {
                        if i != 0 {
                            assert(framebuffers@[i] == old(framebuffers)@[i]);
                        }
                    }
                }
                self.active_pass = Some(
                    RenderPassState {
                        framebuffer: 0,
                        clear_color: *clear_color,
                        clear_depth: *clear_depth,
                        draw_calls: Vec::new(),
                    },
                );
                Ok(())
            },
            GpuCommand::EndRenderPass => {
                self.active_pass = None;
                Ok(())
            },
            GpuCommand::BindPipeline(id) => {
                self.bound.pipeline_id = Some(*id);
                Ok(())
            },
            GpuCommand::BindVertexBuffer { slot, buffer_id } => {
                self.bound.vertex_buffers.insert(*slot, *buffer_id);
                Ok(())
            },
            GpuCommand::BindIndexBuffer { buffer_id, index_type } => {
                self.bound.index_buffer = Some((*buffer_id, *index_type));
                Ok(())
            },
            GpuCommand::BindUniformBuffer { slot, buffer_id } => {
                self.bound.uniform_buffers.insert(*slot, *buffer_id);
                Ok(())
            },
            GpuCommand::BindTexture { slot, texture_id, sampler_id } => {
                self.bound.textures.insert(*slot, (*texture_id, *sampler_id));
                Ok(())
            },
            GpuCommand::Draw { vertex_count, first_vertex } => {
                self.record_draw(DrawCall::Draw { first_vertex: *first_vertex, vertex_count: *vertex_count });
                Ok(())
            },
            GpuCommand::DrawIndexed { index_count, first_index, vertex_offset } => {
                self.record_draw(
                    DrawCall::DrawIndexed {
                        first_index: *first_index,
                        index_count: *index_count,
                        vertex_offset: *vertex_offset,
                    },
                );
                Ok(())
            },
            GpuCommand::DrawInstanced { vertex_count, instance_count, first_vertex, first_instance } => {
                self.record_draw(
                    DrawCall::DrawInstanced {
                        first_vertex: *first_vertex,
                        vertex_count: *vertex_count,
                        instance_count: *instance_count,
                        first_instance: *first_instance,
                    },
                );
                Ok(())
            },
            GpuCommand::DrawIndexedInstanced {
                index_count,
                instance_count,
                first_index,
                vertex_offset,
                first_instance,
            } => {
                self.record_draw(
                    DrawCall::DrawIndexedInstanced {
                        first_index: *first_index,
                        index_count: *index_count,
                        instance_count: *instance_count,
                        vertex_offset: *vertex_offset,
                        first_instance: *first_instance,
                    },
                );
                Ok(())
            },
            GpuCommand::SetViewport(vp) => {
                self.bound.viewport = Some(*vp);
                Ok(())
            },
            GpuCommand::SetScissor(rect) => {
                self.bound.scissor = Some(*rect);
                Ok(())
            },
            GpuCommand::SetLineWidth(_) => Ok(()),
            GpuCommand::PushConstants { .. } => Ok(()),
            GpuCommand::CopyBufferToTexture { buffer_id, texture_id } => {
                match self.vertex_buffers.get(buffer_id) {
                    Some(buf) => {
                        let _ = textures.upload_texture(*texture_id, buf.data.as_slice());
                    },
                    None => {},
                }
                Ok(())
            },
            GpuCommand::CopyTextureToBuffer { texture_id, buffer_id } => {
                match textures.download_texture(*texture_id) {
                    Ok(data) => {
                        let ghost before = self.vertex_buffers@;
                        match self.vertex_buffers.remove(buffer_id) {
                            Some(mut buf) => {
                                copy_prefix(&mut buf.data, data.as_slice());
                                self.vertex_buffers.insert(*buffer_id, buf);
                                assert forall|k: u64| #[trigger] self.vertex_buffers@.contains_key(k) implies k
                                    < self.next_buffer_id by {
                                    assert(before.contains_key(k));
                                }
                                assert(self.vertex_buffers@.dom() =~= before.dom());
                            },
                            None => {
                                assert(self.vertex_buffers@ =~= before);
                            },
                        }
                    },
                    Err(_) => {},
                }
                Ok(())
            },
            GpuCommand::ClearTexture { texture_id, color } => {
                let ghost t0 = *textures;
                proof {
                    if t0.spec_textures().contains_key(*texture_id) {
                        crate::texture::lemma_wf_texture_sized(&t0, *texture_id);
                    }
                }
                match textures.get_texture_mut(*texture_id) {
                    Ok(tex) => {
                        let c = color_to_rgba8(*color);
                        assert(c@ =~= spec_rgba8(*color));
                        fill4(&mut tex.data, c);
                    },
                    Err(_) => {},
                }
                proof {
                    if t0.spec_textures().contains_key(*texture_id) {
                        crate::texture::lemma_replace_keeps_wf(&t0, &*textures, *texture_id);
                        assert(textures.spec_textures().dom() =~= t0.spec_textures().dom());
                    } else {
                        crate::texture::lemma_views_keep_wf(&t0, &*textures);
                    }
                }
                Ok(())
            },
            GpuCommand::GenerateMipmaps(_) => Ok(()),
            GpuCommand::DispatchCompute { pipeline_id, x, y, z } => {
                if self.active_pass.is_some() {
                    return Err(ExecutorError::ComputeInsideRenderPass);
                }
                match manager {
                    None => Err(ExecutorError::Compute(ComputeError::BackendUnavailable)),
                    Some(m) => {
                        let mut sync = GpuSyncManager::new();
                        let fence = sync.create_fence();
                        let wg = DispatchWorkgroup { x: *x, y: *y, z: *z };
                        match m.check_dispatch(*pipeline_id, wg, &sync, fence) {
                            Ok(()) => {
                                self.executed_commands = self.executed_commands + 1;
                                Ok(())
                            },
                            Err(e) => Err(ExecutorError::Compute(e)),
                        }
                    },
                }
            },
        }
    }

    /// Records a draw in the active render pass and counts it; outside a
    /// pass nothing happens.
    fn record_draw(&mut self, call: DrawCall)
        requires
            old(self).spec_executed() < u64::MAX,
        ensures
            final(self).spec_same_resources(&*old(self)),
            final(self).spec_same_bound_except(&*old(self), BoundPart::Nothing),
            final(self).wf() == old(self).wf(),
            match old(self).spec_pass() {
                Some((fb, n)) => final(self).spec_pass() == Some((fb, n + 1)) && final(self).spec_executed()
                    == old(self).spec_executed() + 1,
                None => final(self).spec_pass() is None && final(self).spec_executed()
                    == old(self).spec_executed(),
            },
    {
        let counted = match &mut self.active_pass {
            Some(pass) => {
                pass.draw_calls.push(call);
                true
            },
            None => false,
        };
        if counted {
            self.executed_commands = self.executed_commands + 1;
        }
    }

    /// The first `k` commands ran one after another, successfully, through
    /// the states `es`, `ts`, `fs`.
    pub open spec fn spec_run(
        es: Seq<Self>,
        ts: Seq<Map<u32, Texture>>,
        fs: Seq<Seq<LinearFramebuffer>>,
        cmds: Seq<GpuCommand>,
        m: Option<ComputePipelineManager>,
        k: int,
    ) -> bool {
        &&& 0 <= k <= cmds.len()
        &&& es.len() == k + 1
        &&& ts.len() == k + 1
        &&& fs.len() == k + 1
        &&& forall|i: int|
            0 <= i < k ==> #[trigger] Self::spec_step(
                &es[i],
                ts[i],
                fs[i],
                cmds[i],
                m,
                &es[i + 1],
                ts[i + 1],
                fs[i + 1],
                Ok(()),
            )
    }

    /// A whole list ran from `(e0, t0, f0)` to `(e, t, f)` answering `r`:
    /// every command before the stopping point succeeded in order, and either
    /// all ran and `r` is `Ok`, or the next one failed with `r` and changed
    /// nothing.
    pub open spec fn spec_execution(
        e0: &Self,
        t0: Map<u32, Texture>,
        f0: Seq<LinearFramebuffer>,
        cmds: Seq<GpuCommand>,
        m: Option<ComputePipelineManager>,
        e: &Self,
        t: Map<u32, Texture>,
        f: Seq<LinearFramebuffer>,
        r: Result<(), ExecutorError>,
    ) -> bool {
        exists|es: Seq<Self>, ts: Seq<Map<u32, Texture>>, fs: Seq<Seq<LinearFramebuffer>>, k: int|
            #[trigger] Self::spec_run(es, ts, fs, cmds, m, k) && {
                &&& es[0] == *e0
                &&& ts[0] == t0
                &&& fs[0] == f0
                &&& es[k] == *e
                &&& ts[k] == t
                &&& fs[k] == f
                &&& if k == cmds.len() {
                    r is Ok
                } else {
                    r is Err && Self::spec_step(&es[k], ts[k], fs[k], cmds[k], m, &es[k], ts[k], fs[k], r)
                }
            }
    }

    fn execute_inner(
        &mut self,
        commands: &RecordedCommandBuffer,
        framebuffers: &mut [LinearFramebuffer],
        textures: &mut TextureManager,
        manager: Option<&ComputePipelineManager>,
    ) -> (r: Result<(), ExecutorError>)
        requires
            old(self).wf(),
            old(textures).wf(),
            spec_frames_stored(old(framebuffers)@),
            old(self).spec_executed() + commands.commands@.len() <= u64::MAX,
        ensures
            final(self).wf(),
            final(textures).wf(),
            final(textures).spec_samplers() == old(textures).spec_samplers(),
            final(textures).spec_next_id() == old(textures).spec_next_id(),
            final(textures).spec_next_sampler_id() == old(textures).spec_next_sampler_id(),
            Self::spec_execution(
                &*old(self),
                old(textures).spec_textures(),
                old(framebuffers)@,
                commands.commands@,
                match manager {
                    Some(m) => Some(*m),
                    None => None,
                },
                &*final(self),
                final(textures).spec_textures(),
                final(framebuffers)@,
                r,
            ),
    {
        let ghost m = match manager {
            Some(m) => Some(*m),
            None => None,
        };
        let ghost cmds = commands.commands@;
        let ghost mut es: Seq<Self> = seq![*self];
        let ghost mut ts: Seq<Map<u32, Texture>> = seq![textures.spec_textures()];
        let ghost mut fs: Seq<Seq<LinearFramebuffer>> = seq![framebuffers@];
        let n = commands.commands.len();
        let mut i: usize = 0;
        while i < n
            invariant
                n == cmds.len(),
                cmds == commands.commands@,
                i <= n,
                self.wf(),
                textures.wf(),
                spec_frames_stored(framebuffers@),
                textures.spec_samplers() == old(textures).spec_samplers(),
                textures.spec_next_id() == old(textures).spec_next_id(),
                textures.spec_next_sampler_id() == old(textures).spec_next_sampler_id(),
                self.spec_executed() <= old(self).spec_executed() + i,
                old(self).spec_executed() + cmds.len() <= u64::MAX,
                m == (match manager {
                    Some(m) => Some(*m),
                    None => None,
                }),
                Self::spec_run(es, ts, fs, cmds, m, i as int),
                es[0] == *old(self),
                ts[0] == old(textures).spec_textures(),
                fs[0] == old(framebuffers)@,
                es[i as int] == *self,
                ts[i as int] == textures.spec_textures(),
                fs[i as int] == framebuffers@,
            decreases n - i,
        {
            let ghost e1 = *self;
            let ghost t1 = textures.spec_textures();
            let ghost f1 = framebuffers@;
            let r = self.execute_command(&commands.commands[i], framebuffers, textures, manager);
            match r {
                Ok(()) => {},
                Err(e) => {
                    proof {
                        assert(*self == e1 && textures.spec_textures() == t1 && framebuffers@ == f1) by {
                            assert(Self::spec_step(&e1, t1, f1, cmds[i as int], m, &*self, textures.spec_textures(), framebuffers@, Err(e)));
                        }
                        assert(Self::spec_run(es, ts, fs, cmds, m, i as int));
                    }
                    return Err(e);
                },
            }
            proof {
                let ghost es2 = es.push(*self);
                let ghost ts2 = ts.push(textures.spec_textures());
                let ghost fs2 = fs.push(framebuffers@);
                assert forall|j: int| 0 <= j < i + 1 implies #[trigger] Self::spec_step(
                    &es2[j],
                    ts2[j],
                    fs2[j],
                    cmds[j],
                    m,
                    &es2[j + 1],
                    ts2[j + 1],
                    fs2[j + 1],
                    Ok(()),
                ) by {
                    if j < i {
                        assert(Self::spec_step(&es[j], ts[j], fs[j], cmds[j], m, &es[j + 1], ts[j + 1], fs[j + 1], Ok(())));
                    }
                }
                es = es2;
                ts = ts2;
                fs = fs2;
            }
            i = i + 1;
        }
        proof {
            assert(Self::spec_run(es, ts, fs, cmds, m, n as int));
        }
        Ok(())
    }

    /// Runs the commands in order; a compute dispatch finds no backend.
    /// The first failing command stops the list; earlier work stays.
    pub fn execute(
        &mut self,
        commands: &RecordedCommandBuffer,
        framebuffers: &mut [LinearFramebuffer],
        textures: &mut TextureManager,
    ) -> (r: Result<(), ExecutorError>)
        requires
            old(self).wf(),
            old(textures).wf(),
            spec_frames_stored(old(framebuffers)@),
            old(self).spec_executed() + commands.commands@.len() <= u64::MAX,
        ensures
            final(self).wf(),
            final(textures).wf(),
            final(textures).spec_samplers() == old(textures).spec_samplers(),
            final(textures).spec_next_id() == old(textures).spec_next_id(),
            final(textures).spec_next_sampler_id() == old(textures).spec_next_sampler_id(),
            Self::spec_execution(
                &*old(self),
                old(textures).spec_textures(),
                old(framebuffers)@,
                commands.commands@,
                None,
                &*final(self),
                final(textures).spec_textures(),
                final(framebuffers)@,
                r,
            ),
    {
        self.execute_inner(commands, framebuffers, textures, None)
    }

    /// Runs the commands in order with `manager` answering compute
    /// dispatches; its pipeline ids and buffers are the ones dispatched.
    pub fn execute_with_compute(
        &mut self,
        commands: &RecordedCommandBuffer,
        framebuffers: &mut [LinearFramebuffer],
        textures: &mut TextureManager,
        manager: &mut ComputePipelineManager,
    ) -> (r: Result<(), ExecutorError>)
        requires
            old(self).wf(),
            old(textures).wf(),
            spec_frames_stored(old(framebuffers)@),
            old(self).spec_executed() + commands.commands@.len() <= u64::MAX,
        ensures
            final(self).wf(),
            final(textures).wf(),
            *final(manager) == *old(manager),
            final(textures).spec_samplers() == old(textures).spec_samplers(),
            final(textures).spec_next_id() == old(textures).spec_next_id(),
            final(textures).spec_next_sampler_id() == old(textures).spec_next_sampler_id(),
            Self::spec_execution(
                &*old(self),
                old(textures).spec_textures(),
                old(framebuffers)@,
                commands.commands@,
                Some(*old(manager)),
                &*final(self),
                final(textures).spec_textures(),
                final(framebuffers)@,
                r,
            ),
    {
        self.execute_inner(commands, framebuffers, textures, Some(&*manager))
    }

    /// The framebuffer and the encoded vertices a draw rasterizes: inside an
    /// active pass, with a vertex buffer bound at slot 0 (and, for an indexed
    /// draw, an index buffer bound), the records of the vertices the draw
    /// names that lie wholly inside the vertex buffer, in draw order. Other
    /// commands, and draws with nothing to read, give `None`.
    pub fn draw_vertex_records(&self, cmd: &GpuCommand) -> (r: Option<(usize, Vec<Vec<u8>>)>)
        ensures
            r matches Some((fb, recs)) ==> {
                &&& self.spec_pass() matches Some((pfb, _)) && fb == pfb
                &&& self.spec_bound_vertex().contains_key(0)
                &&& self.spec_vertex_buffers().contains_key(self.spec_bound_vertex()[0])
                &&& spec_views_of(recs@) == spec_vertex_records(
                    self.spec_vertex_buffers()[self.spec_bound_vertex()[0]].data@,
                    self.spec_draw_bases(*cmd),
                )
            },
            r is None <==> !(self.spec_pass() is Some && self.spec_bound_vertex().contains_key(0)
                && self.spec_vertex_buffers().contains_key(self.spec_bound_vertex()[0])
                && self.spec_draw_reads(*cmd)),
    {
        let fb = match &self.active_pass {
            Some(pass) => pass.framebuffer,
            None => {
                return None;
            },
        };
        let vbuf_id = match self.bound.vertex_buffers.get(&0) {
            Some(id) => *id,
            None => {
                return None;
            },
        };
        let vbuf = match self.vertex_buffers.get(&vbuf_id) {
            Some(b) => b,
            None => {
                return None;
            },
        };
        match cmd {
            GpuCommand::Draw { vertex_count, first_vertex } => {
                let mut recs: Vec<Vec<u8>> = Vec::new();
                let mut i: u32 = 0;
                while i < *vertex_count
                    invariant
                        i <= *vertex_count,
                        spec_views_of(recs@) == spec_vertex_records(
                            vbuf.data@,
                            Seq::new(i as nat, |j: int| (*first_vertex + j) * 52),
                        ),
                    decreases *vertex_count - i,
                {
                    let base: u64 = (*first_vertex as u64 + i as u64) * 52;
                    proof {
                        let bs = Seq::new((i + 1) as nat, |j: int| (*first_vertex + j) * 52);
                        assert(bs.drop_last() =~= Seq::new(i as nat, |j: int| (*first_vertex + j) * 52));
                    }
                    push_record(&mut recs, vbuf.data.as_slice(), base);
                    i = i + 1;
                }
                Some((fb, recs))
            },
            GpuCommand::DrawIndexed { index_count, first_index, vertex_offset } => {
                let (ibuf_id, index_type) = match self.bound.index_buffer {
                    Some(b) => b,
                    None => {
                        return None;
                    },
                };
                let ibuf = match self.index_buffers.get(&ibuf_id) {
                    Some(b) => b,
                    None => {
                        return None;
                    },
                };
                let mut recs: Vec<Vec<u8>> = Vec::new();
                let mut i: u32 = 0;
                while i < *index_count
                    invariant
                        i <= *index_count,
                        spec_views_of(recs@) == spec_vertex_records(
                            vbuf.data@,
                            Seq::new(
                                i as nat,
                                |j: int| spec_indexed_base(ibuf.data@, *first_index + j, index_type, *vertex_offset),
                            ),
                        ),
                    decreases *index_count - i,
                {
                    let raw = read_index(ibuf.data.as_slice(), *first_index as u64 + i as u64, index_type);
                    let at = raw as i64 + *vertex_offset as i64;
                    let base: u64 = if at < 0 {
                        0
                    } else {
                        at as u64 * 52
                    };
                    proof {
                        let bs = Seq::new(
                            (i + 1) as nat,
                            |j: int| spec_indexed_base(ibuf.data@, *first_index + j, index_type, *vertex_offset),
                        );
                        assert(bs.drop_last() =~= Seq::new(
                            i as nat,
                            |j: int| spec_indexed_base(ibuf.data@, *first_index + j, index_type, *vertex_offset),
                        ));
                    }
                    push_record(&mut recs, vbuf.data.as_slice(), base);
                    i = i + 1;
                }
                Some((fb, recs))
            },
            _ => None,
        }
    }

    /// The command reads vertices from the bound buffers.
    pub open spec fn spec_draw_reads(&self, cmd: GpuCommand) -> bool {
        match cmd {
            GpuCommand::Draw { .. } => true,
            GpuCommand::DrawIndexed { .. } => self.spec_bound_index() matches Some((ib, _))
                && self.spec_index_buffers().contains_key(ib),
            _ => false,
        }
    }

    /// The first byte of each vertex a draw names, in draw order.
    pub open spec fn spec_draw_bases(&self, cmd: GpuCommand) -> Seq<int> {
        match cmd {
            GpuCommand::Draw { vertex_count, first_vertex } => Seq::new(
                vertex_count as nat,
                |j: int| (first_vertex + j) * 52,
            ),
            GpuCommand::DrawIndexed { index_count, first_index, vertex_offset } => {
                let (ib, ty) = self.spec_bound_index()->0;
                Seq::new(
                    index_count as nat,
                    |j: int| spec_indexed_base(self.spec_index_buffers()[ib].data@, first_index + j, ty, vertex_offset),
                )
            },
            _ => Seq::empty(),
        }
    }
}

/// Index buffers hold their indices little-endian, as `u16::to_le_bytes` and
/// `u32::to_le_bytes` write them: where the two bytes at position `at` of a
/// `Uint16` buffer are those of `v`, index `at` is `v`; where the four bytes at
/// position `at` of a `Uint32` buffer are those of `w`, index `at` is `w`; an
/// index whose bytes lie past the end of the buffer reads as 0.
pub proof fn law_index_buffer_little_endian(data: Seq<u8>, at: int, v: u16, w: u32)
    requires
        0 <= at,
    ensures
        2 * at + 2 <= data.len() && data.subrange(2 * at, 2 * at + 2) == spec_u16_bytes(v)
            ==> spec_read_index(data, at, IndexType::Uint16) == v,
        4 * at + 4 <= data.len() && data.subrange(4 * at, 4 * at + 4) == spec_u32_bytes(w)
            ==> spec_read_index(data, at, IndexType::Uint32) == w,
        2 * at + 2 > data.len() ==> spec_read_index(data, at, IndexType::Uint16) == 0,
        4 * at + 4 > data.len() ==> spec_read_index(data, at, IndexType::Uint32) == 0,
{
    if 2 * at + 2 <= data.len() && data.subrange(2 * at, 2 * at + 2) == spec_u16_bytes(v) {
        let b0 = data[2 * at];
        let b1 = data[2 * at + 1];
        assert(b0 == spec_u16_bytes(v)[0] && b1 == spec_u16_bytes(v)[1]);
        assert(b0 == (v & 0xff) as u8 && b1 == (v >> 8u16) as u8);
        assert(b0 as int + 256 * (b1 as int) == v as int) by (bit_vector)
            requires
                b0 == (v & 0xff) as u8,
                b1 == (v >> 8u16) as u8,
        ;
    }
    if 4 * at + 4 <= data.len() && data.subrange(4 * at, 4 * at + 4) == spec_u32_bytes(w) {
        let c0 = data[4 * at];
        let c1 = data[4 * at + 1];
        let c2 = data[4 * at + 2];
        let c3 = data[4 * at + 3];
        let e = spec_u32_bytes(w);
        assert(c0 == e[0] && c1 == e[1] && c2 == e[2] && c3 == e[3]);
        assert(c0 as int + 256 * (c1 as int) + 65536 * (c2 as int) + 16777216 * (c3 as int) == w as int)
            by (bit_vector)
            requires
                c0 == (w & 0xff) as u8,
                c1 == ((w >> 8u32) & 0xff) as u8,
                c2 == ((w >> 16u32) & 0xff) as u8,
                c3 == (w >> 24u32) as u8,
        ;
    }
}

/// An indexed draw reads its `j`-th vertex record from the vertex the `j`-th
/// index names (counted from `first_index`), shifted by `vertex_offset` and
/// clamped at zero, 52 bytes per vertex; a `Uint16` index is read
/// little-endian. So for a bound `Uint16` index buffer whose bytes at that
/// position are those of `v`, the record starts at byte `(v + vertex_offset)
/// * 52`, or 0 where that sum is negative.
pub proof fn law_indexed_draw_bases(
    e: CommandExecutor,
    ib: u64,
    index_count: u32,
    first_index: u32,
    vertex_offset: i32,
    j: int,
    v: u16,
)
    requires
        e.spec_bound_index() == Some((ib, IndexType::Uint16)),
        0 <= j < index_count,
        2 * (first_index + j) + 2 <= e.spec_index_buffers()[ib].data@.len(),
        e.spec_index_buffers()[ib].data@.subrange(2 * (first_index + j), 2 * (first_index + j) + 2)
            == spec_u16_bytes(v),
    ensures
        e.spec_draw_bases(GpuCommand::DrawIndexed { index_count, first_index, vertex_offset }).len()
            == index_count,
        e.spec_draw_bases(GpuCommand::DrawIndexed { index_count, first_index, vertex_offset })[j] == (if v
            + vertex_offset < 0 {
            0
        } else {
            (v + vertex_offset) * 52
        }),
{
    law_index_buffer_little_endian(e.spec_index_buffers()[ib].data@, first_index + j, v, 0);
}

/// A plain draw reads `vertex_count` vertices from `first_vertex` on, each a
/// 52-byte record: the `j`-th record starts at byte `(first_vertex + j) * 52`.
pub proof fn law_draw_bases(e: CommandExecutor, vertex_count: u32, first_vertex: u32, j: int)
    requires
        0 <= j < vertex_count,
    ensures
        e.spec_draw_bases(GpuCommand::Draw { vertex_count, first_vertex }).len() == vertex_count,
        e.spec_draw_bases(GpuCommand::Draw { vertex_count, first_vertex })[j] == (first_vertex + j) * 52,
{
}

/// Where every base lies wholly inside the vertex data, the records handed to
/// the rasterizer are the 52 bytes at each base, one per base, in order.
pub proof fn law_vertex_records_in_range(data: Seq<u8>, bases: Seq<int>)
    requires
        forall|j: int| 0 <= j < bases.len() ==> 0 <= #[trigger] bases[j] && bases[j] + 52 <= data.len(),
    ensures
        spec_vertex_records(data, bases).len() == bases.len(),
        forall|j: int| 0 <= j < bases.len() ==> #[trigger] spec_vertex_records(data, bases)[j] == data.subrange(
            bases[j],
            bases[j] + 52,
        ),
    decreases bases.len(),
{
    if bases.len() > 0 {
        let d = bases.drop_last();
        assert forall|j: int| 0 <= j < d.len() implies 0 <= #[trigger] d[j] && d[j] + 52 <= data.len() by {
            assert(d[j] == bases[j]);
        }
        law_vertex_records_in_range(data, d);
        assert(bases.last() == bases[bases.len() - 1]);
    }
}

/// A recorded compute dispatch never counts as executed work and changes
/// nothing: the step always fails (no shader is executed here), leaving the
/// executor, textures and framebuffers as they were.
pub proof fn law_dispatch_never_counts(
    e1: CommandExecutor,
    t1: Map<u32, Texture>,
    f1: Seq<LinearFramebuffer>,
    pipeline_id: u32,
    x: u32,
    y: u32,
    z: u32,
    m: Option<ComputePipelineManager>,
    e2: CommandExecutor,
    t2: Map<u32, Texture>,
    f2: Seq<LinearFramebuffer>,
    r: Result<(), ExecutorError>,
)
    requires
        CommandExecutor::spec_step(
            &e1,
            t1,
            f1,
            GpuCommand::DispatchCompute { pipeline_id, x, y, z },
            m,
            &e2,
            t2,
            f2,
            r,
        ),
    ensures
        r is Err,
        e2 == e1,
        e2.spec_executed() == e1.spec_executed(),
        t2 == t1,
        f2 == f1,
{
}

/// A compute dispatch recorded while a render pass is active is refused with
/// `ComputeInsideRenderPass`, whatever compute manager is attached.
pub proof fn law_compute_inside_render_pass_rejected(
    e1: CommandExecutor,
    t1: Map<u32, Texture>,
    f1: Seq<LinearFramebuffer>,
    pipeline_id: u32,
    x: u32,
    y: u32,
    z: u32,
    m: Option<ComputePipelineManager>,
    e2: CommandExecutor,
    t2: Map<u32, Texture>,
    f2: Seq<LinearFramebuffer>,
    r: Result<(), ExecutorError>,
)
    requires
        e1.spec_pass() is Some,
        CommandExecutor::spec_step(
            &e1,
            t1,
            f1,
            GpuCommand::DispatchCompute { pipeline_id, x, y, z },
            m,
            &e2,
            t2,
            f2,
            r,
        ),
    ensures
        r matches Err(ExecutorError::ComputeInsideRenderPass),
{
}

/// A draw counts as executed exactly when a render pass is active; outside a
/// pass it is ignored.
pub proof fn law_draws_count_only_in_pass(
    e1: CommandExecutor,
    t1: Map<u32, Texture>,
    f1: Seq<LinearFramebuffer>,
    cmd: GpuCommand,
    m: Option<ComputePipelineManager>,
    e2: CommandExecutor,
    t2: Map<u32, Texture>,
    f2: Seq<LinearFramebuffer>,
    r: Result<(), ExecutorError>,
)
    requires
        cmd is Draw || cmd is DrawIndexed || cmd is DrawInstanced || cmd is DrawIndexedInstanced,
        CommandExecutor::spec_step(&e1, t1, f1, cmd, m, &e2, t2, f2, r),
    ensures
        r is Ok,
        e1.spec_pass() is Some ==> e2.spec_executed() == e1.spec_executed() + 1,
        e1.spec_pass() is None ==> e2.spec_executed() == e1.spec_executed(),
        t2 == t1,
        f2 == f1,
{
}

/// Running a list of one compute dispatch changes nothing and fails: inside
/// a render pass with `ComputeInsideRenderPass`, otherwise with the compute
/// error the manager (if any) gives for that dispatch.
pub proof fn lemma_single_dispatch(
    e0: CommandExecutor,
    t0: Map<u32, Texture>,
    f0: Seq<LinearFramebuffer>,
    pipeline_id: u32,
    x: u32,
    y: u32,
    z: u32,
    m: Option<ComputePipelineManager>,
    e: CommandExecutor,
    t: Map<u32, Texture>,
    f: Seq<LinearFramebuffer>,
    r: Result<(), ExecutorError>,
)
    requires
        CommandExecutor::spec_execution(
            &e0,
            t0,
            f0,
            seq![GpuCommand::DispatchCompute { pipeline_id, x, y, z }],
            m,
            &e,
            t,
            f,
            r,
        ),
    ensures
        e == e0,
        t == t0,
        f == f0,
        e0.spec_pass() is Some ==> (r matches Err(ExecutorError::ComputeInsideRenderPass)),
        e0.spec_pass() is None ==> (r matches Err(ExecutorError::Compute(ce)) && spec_dispatch_error(
            m,
            pipeline_id,
            DispatchWorkgroup { x, y, z },
            ce,
        )),
{
    let cmds = seq![GpuCommand::DispatchCompute { pipeline_id, x, y, z }];
    let (es, ts, fs, k) = choose|es: Seq<CommandExecutor>, ts: Seq<Map<u32, Texture>>, fs: Seq<Seq<LinearFramebuffer>>, k: int|
        #[trigger] CommandExecutor::spec_run(es, ts, fs, cmds, m, k) && {
            &&& es[0] == e0
            &&& ts[0] == t0
            &&& fs[0] == f0
            &&& es[k] == e
            &&& ts[k] == t
            &&& fs[k] == f
            &&& if k == cmds.len() {
                r is Ok
            } else {
                r is Err && CommandExecutor::spec_step(&es[k], ts[k], fs[k], cmds[k], m, &es[k], ts[k], fs[k], r)
            }
        };
    if k == 1 {
        assert(CommandExecutor::spec_step(&es[0], ts[0], fs[0], cmds[0], m, &es[1], ts[1], fs[1], Ok(())));
        assert(false);
    }
    assert(k == 0);
}

} // verus!
