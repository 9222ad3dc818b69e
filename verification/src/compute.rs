//! Compute pipelines and storage buffers.
//!
//! This library holds no execution backend of its own: a dispatch that passes
//! every check is answered with [`ComputeError::BackendUnavailable`]. A host
//! backend takes the checked buffer views from [`ComputePipelineManager::dispatch_views`]
//! and hands its readback to [`ComputePipelineManager::commit_dispatch`].
use vstd::prelude::*;
use std::collections::HashMap;
use crate::sync::{FenceId, GpuSyncManager};
use crate::text::{decimal_string, spec_decimal};
use crate::wire::{copy_range, overwrite, spec_overwrite};

verus! {

broadcast use vstd::std_specs::hash::group_hash_axioms;

/// Largest number of invocations one dispatch may ask for.
pub const MAX_DISPATCH_INVOCATIONS: u64 = 16 * 1024 * 1024;
/// Largest number of storage bindings of a pipeline.
pub const MAX_STORAGE_BINDINGS: usize = 8;
/// Bindings are numbered below this.
pub const MAX_BINDING_INDEX: u32 = 32;
/// Largest size of one storage binding, in bytes.
pub const MAX_BINDING_BYTES: u64 = 16 * 1024 * 1024;
/// Largest total size of a pipeline's storage bindings, in bytes.
pub const MAX_TOTAL_BINDING_BYTES: u64 = 64 * 1024 * 1024;

#[derive(Debug)]
pub enum ComputeError {
    PipelineNotFound(u32),
    BufferNotBound(u32),
    InvalidDispatch([u32; 3]),
    StorageBufferTooSmall { needed: usize, available: usize },
    /// No compute execution backend configured.
    BackendUnavailable,
    /// The compute fence must exist and be unsignaled.
    InvalidFence,
    Unsupported(String),
    Generic(String),
}

impl ComputeError {
    pub open spec fn spec_message(&self) -> Seq<char> {
        match self {
            ComputeError::PipelineNotFound(id) => "pipeline not found: "@ + spec_decimal(*id as nat),
            ComputeError::BufferNotBound(slot) => "buffer not bound at slot "@ + spec_decimal(*slot as nat),
            ComputeError::InvalidDispatch(g) => "dispatch dimensions invalid: ["@ + spec_decimal(g@[0] as nat)
                + ", "@ + spec_decimal(g@[1] as nat) + ", "@ + spec_decimal(g@[2] as nat) + "]"@,
            ComputeError::StorageBufferTooSmall { needed, available } => "storage buffer too small: need "@
                + spec_decimal(*needed as nat) + ", got "@ + spec_decimal(*available as nat),
            ComputeError::BackendUnavailable => "no compute execution backend configured"@,
            ComputeError::InvalidFence => "compute fence must exist and be unsignaled"@,
            ComputeError::Unsupported(m) => "unsupported or invalid compute input: "@ + m@,
            ComputeError::Generic(m) => "compute error: "@ + m@,
        }
    }

    /// The error's text.
    pub fn message(&self) -> (r: String)
        ensures
            r@ == self.spec_message(),
    {
        match self {
            ComputeError::PipelineNotFound(id) => {
                let mut m = String::from_str("pipeline not found: ");
                m.append(decimal_string(*id as u64).as_str());
                m
            },
            ComputeError::BufferNotBound(slot) => {
                let mut m = String::from_str("buffer not bound at slot ");
                m.append(decimal_string(*slot as u64).as_str());
                m
            },
            ComputeError::InvalidDispatch(g) => {
                let mut m = String::from_str("dispatch dimensions invalid: [");
                m.append(decimal_string(g[0] as u64).as_str());
                m.append(", ");
                m.append(decimal_string(g[1] as u64).as_str());
                m.append(", ");
                m.append(decimal_string(g[2] as u64).as_str());
                m.append("]");
                m
            },
            ComputeError::StorageBufferTooSmall { needed, available } => {
                let mut m = String::from_str("storage buffer too small: need ");
                m.append(decimal_string(*needed as u64).as_str());
                m.append(", got ");
                m.append(decimal_string(*available as u64).as_str());
                m
            },
            ComputeError::BackendUnavailable => String::from_str("no compute execution backend configured"),
            ComputeError::InvalidFence => String::from_str("compute fence must exist and be unsignaled"),
            ComputeError::Unsupported(detail) => {
                let mut m = String::from_str("unsupported or invalid compute input: ");
                m.append(detail.as_str());
                m
            },
            ComputeError::Generic(detail) => {
                let mut m = String::from_str("compute error: ");
                m.append(detail.as_str());
                m
            },
        }
    }
}

#[derive(Debug, Clone)]
pub struct ComputeShader {
    pub id: u32,
    pub entry_point: String,
    pub bytecode: Vec<u8>,
}

#[derive(Debug, Clone, Copy, PartialEq, Eq, Structural)]
pub struct BufferBinding {
    pub binding: u32,
    pub buffer_id: u64,
    pub offset: u64,
    pub size: u64,
}

#[derive(Debug, Clone)]
pub struct ComputePipelineDescriptor {
    pub shader: ComputeShader,
    pub workgroup_size: [u32; 3],
    pub buffer_bindings: Vec<BufferBinding>,
}

#[derive(Debug, Clone)]
pub struct ComputePipeline {
    pub id: u32,
    pub descriptor: ComputePipelineDescriptor,
}

#[derive(Debug, Clone)]
pub struct StorageBuffer {
    pub handle: u64,
    pub data: Vec<u8>,
}

#[derive(Debug, Clone, Copy, PartialEq, Eq, Structural)]
pub struct DispatchWorkgroup {
    pub x: u32,
    pub y: u32,
    pub z: u32,
}

/// Product of the first `n` numbers of `s`.
pub open spec fn spec_product(s: Seq<u32>, n: int) -> int
    decreases n,
{
    if n <= 0 {
        1
    } else {
        spec_product(s, n - 1) * s[n - 1]
    }
}

/// The six dimensions of a dispatch: workgroup counts, then workgroup size.
pub open spec fn spec_dims(groups: Seq<u32>, size: Seq<u32>) -> Seq<u32> {
    seq![groups[0], groups[1], groups[2], size[0], size[1], size[2]]
}

/// The binding at `i` breaks the storage-binding rules, or repeats a binding
/// number or a buffer of an earlier binding.
pub open spec fn spec_bad_binding(b: Seq<BufferBinding>, i: int) -> bool {
    ||| b[i].binding >= MAX_BINDING_INDEX
    ||| b[i].size == 0
    ||| b[i].size > MAX_BINDING_BYTES
    ||| b[i].offset % 4 != 0
    ||| b[i].size % 4 != 0
    ||| exists|j: int| 0 <= j < i && (b[j].binding == b[i].binding || b[j].buffer_id == b[i].buffer_id)
}

/// Sum of the sizes of the first `n` bindings.
pub open spec fn spec_total_bytes(b: Seq<BufferBinding>, n: int) -> int
    decreases n,
{
    if n <= 0 {
        0
    } else {
        spec_total_bytes(b, n - 1) + b[n - 1].size
    }
}

/// Which rule of a dispatch's shape fails first, if any.
pub enum DispatchShapeFault {
    /// A dimension is zero, or the invocations exceed the cap.
    Dimensions,
    /// Fewer than one or more than eight bindings.
    BindingCount,
    /// A binding is malformed, repeated or aliased.
    Binding,
    /// The bindings' bytes exceed the total cap.
    ByteCap,
}

/// The first rule of a dispatch shape that fails, if any.
pub open spec fn spec_dispatch_fault(size: Seq<u32>, bindings: Seq<BufferBinding>, groups: Seq<u32>) -> Option<DispatchShapeFault> {
    let dims = spec_dims(groups, size);
    if (exists|i: int| 0 <= i < 6 && dims[i] == 0) || spec_product(dims, 6) > MAX_DISPATCH_INVOCATIONS {
        Some(DispatchShapeFault::Dimensions)
    } else if bindings.len() == 0 || bindings.len() > MAX_STORAGE_BINDINGS {
        Some(DispatchShapeFault::BindingCount)
    } else if exists|i: int| 0 <= i < bindings.len() && spec_bad_binding(bindings, i) {
        Some(DispatchShapeFault::Binding)
    } else if spec_total_bytes(bindings, bindings.len() as int) > MAX_TOTAL_BINDING_BYTES {
        Some(DispatchShapeFault::ByteCap)
    } else {
        None
    }
}

/// `e` is the error `validate_dispatch` reports for `fault` on `groups`.
pub open spec fn spec_fault_error(fault: DispatchShapeFault, groups: Seq<u32>, e: ComputeError) -> bool {
    match fault {
        DispatchShapeFault::Dimensions => e matches ComputeError::InvalidDispatch(g) && g@ == groups,
        DispatchShapeFault::BindingCount => e matches ComputeError::Unsupported(m) && m@
            == "require 1..8 storage bindings"@,
        DispatchShapeFault::Binding => e matches ComputeError::Unsupported(m) && m@
            == "invalid/duplicate/aliased storage binding"@,
        DispatchShapeFault::ByteCap => e matches ComputeError::Unsupported(m) && m@
            == "storage byte cap exceeded"@,
    }
}

/// Checks the dimensions and storage bindings of a dispatch of `groups`
/// workgroups on a pipeline described by `descriptor`.
pub fn validate_dispatch(descriptor: &ComputePipelineDescriptor, groups: [u32; 3]) -> (r: Result<(), ComputeError>)
    ensures
        match spec_dispatch_fault(descriptor.workgroup_size@, descriptor.buffer_bindings@, groups@) {
            None => r is Ok,
            Some(f) => r matches Err(e) && spec_fault_error(f, groups@, e),
        },
{
    let dims = [
        groups[0],
        groups[1],
        groups[2],
        descriptor.workgroup_size[0],
        descriptor.workgroup_size[1],
        descriptor.workgroup_size[2],
    ];
    let ghost sdims = spec_dims(groups@, descriptor.workgroup_size@);
    assert(dims@ =~= sdims);
    let mut total: u64 = 1;
    let mut i: usize = 0;
    let mut fits = true;
    while i < 6
        invariant
            i <= 6,
            dims@ == sdims,
            fits ==> total == spec_product(sdims, i as int),
            fits ==> forall|j: int| 0 <= j < i ==> sdims[j] != 0,
            !fits ==> (exists|j: int| 0 <= j < 6 && sdims[j] == 0) || spec_product(sdims, 6)
                > MAX_DISPATCH_INVOCATIONS,
        decreases 6 - i,
    {
        if fits {
            if dims[i] == 0 {
                fits = false;
            } else {
                match total.checked_mul(dims[i] as u64) {
                    Some(t) => {
                        total = t;
                    },
                    None => {
                        proof {
                            lemma_product_grows(sdims, i as int + 1);
                        }
                        fits = false;
                    },
                }
            }
        }
        i = i + 1;
    }
    if !fits || total > MAX_DISPATCH_INVOCATIONS {
        return Err(ComputeError::InvalidDispatch(groups));
    }
    let n = descriptor.buffer_bindings.len();
    if n == 0 || n > MAX_STORAGE_BINDINGS {
        return Err(ComputeError::Unsupported(String::from_str("require 1..8 storage bindings")));
    }
    let bs = &descriptor.buffer_bindings;
    let mut total_bytes: u64 = 0;
    let mut k: usize = 0;
    while k < n
        invariant
            k <= n,
            n == bs@.len(),
            n <= MAX_STORAGE_BINDINGS,
            forall|j: int| 0 <= j < k ==> !spec_bad_binding(bs@, j),
            total_bytes == spec_total_bytes(bs@, k as int),
            total_bytes <= k * MAX_BINDING_BYTES,
            bs@ == descriptor.buffer_bindings@,
            n >= 1,
            !(exists|i: int| 0 <= i < 6 && spec_dims(groups@, descriptor.workgroup_size@)[i] == 0),
            spec_product(spec_dims(groups@, descriptor.workgroup_size@), 6) <= MAX_DISPATCH_INVOCATIONS,
        decreases n - k,
    {
        let b = bs[k];
        let mut dup = false;
        let mut j: usize = 0;
        while j < k
            invariant
                j <= k,
                k < n,
                n == bs@.len(),
                b == bs@[k as int],
                dup <==> exists|m: int| 0 <= m < j && (bs@[m].binding == b.binding || bs@[m].buffer_id
                    == b.buffer_id),
            decreases k - j,
        {
            if bs[j].binding == b.binding || bs[j].buffer_id == b.buffer_id {
                dup = true;
            }
            j = j + 1;
        }
        if b.binding >= MAX_BINDING_INDEX || dup || b.size == 0 || b.size > MAX_BINDING_BYTES
            || b.offset % 4 != 0 || b.size % 4 != 0 {
            proof {
                assert(spec_bad_binding(bs@, k as int));
            }
            return Err(
                ComputeError::Unsupported(
                    String::from_str("invalid/duplicate/aliased storage binding"),
                ),
            );
        }
        assert(total_bytes + b.size <= (k + 1) * MAX_BINDING_BYTES && (k + 1) * MAX_BINDING_BYTES
            <= 8 * MAX_BINDING_BYTES) by (nonlinear_arith)
            requires
                total_bytes <= k * MAX_BINDING_BYTES,
                b.size <= MAX_BINDING_BYTES,
                k < 8,
        ;
        total_bytes = total_bytes + b.size;
        k = k + 1;
    }
    if total_bytes > MAX_TOTAL_BINDING_BYTES {
        return Err(ComputeError::Unsupported(String::from_str("storage byte cap exceeded")));
    }
    Ok(())
}

/// Once a prefix product overflows `u64`, the whole product exceeds the cap
/// or a later factor is zero.
proof fn lemma_product_grows(s: Seq<u32>, n: int)
    requires
        0 <= n <= 6,
        s.len() == 6,
        spec_product(s, n) > u64::MAX,
    ensures
        (exists|j: int| 0 <= j < 6 && s[j] == 0) || spec_product(s, 6) > MAX_DISPATCH_INVOCATIONS,
    decreases 6 - n,
{
    if n < 6 {
        if s[n] == 0 {
            assert(s[n] == 0);
        } else {
            assert(spec_product(s, n + 1) == spec_product(s, n) * s[n]);
            assert(spec_product(s, n) * s[n] >= spec_product(s, n)) by (nonlinear_arith)
                requires
                    s[n] >= 1,
                    spec_product(s, n) >= 0,
            ;
            lemma_product_grows(s, n + 1);
        }
    }
}

/// The sizes of the first `n` bindings, added up.
proof fn lemma_total_is_sum(bs: Seq<BufferBinding>, n: int)
    requires
        0 <= n <= bs.len(),
    ensures
        spec_total_bytes(bs, n) == bs.subrange(0, n).fold_left(0int, |acc: int, b: BufferBinding| acc + b.size),
    decreases n,
{
    if n > 0 {
        lemma_total_is_sum(bs, n - 1);
        let p = bs.subrange(0, n);
        assert(p.drop_last() =~= bs.subrange(0, n - 1));
        assert(p.last() == bs[n - 1]);
    }
}

/// A dispatch of `groups` workgroups of `size` threads with storage bindings
/// `bs` passes `validate_dispatch` exactly when: every workgroup count and
/// size is nonzero and all six multiply to at most 16 Mi invocations; there
/// are one to eight bindings; every binding has a number below 32, a nonzero
/// size of at most 16 MiB, and a size and an offset that are multiples of 4;
/// no two bindings share a binding number or a buffer; and the sizes add up
/// to at most 64 MiB.
pub proof fn law_dispatch_rules(size: Seq<u32>, bs: Seq<BufferBinding>, groups: Seq<u32>)
    requires
        size.len() == 3,
        groups.len() == 3,
    ensures
        spec_dispatch_fault(size, bs, groups) is None <==> {
            &&& groups[0] != 0 && groups[1] != 0 && groups[2] != 0
            &&& size[0] != 0 && size[1] != 0 && size[2] != 0
            &&& groups[0] * groups[1] * groups[2] * size[0] * size[1] * size[2] <= 16 * 1024 * 1024
            &&& 1 <= bs.len() <= 8
            &&& forall|i: int| 0 <= i < bs.len() ==> {
                &&& (#[trigger] bs[i]).binding < 32
                &&& 0 < bs[i].size <= 16 * 1024 * 1024
                &&& bs[i].size % 4 == 0
                &&& bs[i].offset % 4 == 0
            }
            &&& forall|i: int, j: int| 0 <= i < j < bs.len() ==> (#[trigger] bs[i]).binding != (
            #[trigger] bs[j]).binding && bs[i].buffer_id != bs[j].buffer_id
            &&& bs.fold_left(0int, |acc: int, b: BufferBinding| acc + b.size) <= 64 * 1024 * 1024
        },
{
    let dims = spec_dims(groups, size);
    reveal_with_fuel(spec_product, 7);
    assert(spec_product(dims, 6) == groups[0] * groups[1] * groups[2] * size[0] * size[1] * size[2])
        by (nonlinear_arith)
        requires
            spec_product(dims, 6) == 1 * dims[0] * dims[1] * dims[2] * dims[3] * dims[4] * dims[5],
            dims[0] == groups[0],
            dims[1] == groups[1],
            dims[2] == groups[2],
            dims[3] == size[0],
            dims[4] == size[1],
            dims[5] == size[2],
    ;
    assert((exists|i: int| 0 <= i < 6 && dims[i] == 0) <==> !(groups[0] != 0 && groups[1] != 0 && groups[2]
        != 0 && size[0] != 0 && size[1] != 0 && size[2] != 0)) by {
        if groups[0] == 0 { assert(dims[0] == 0); }
        if groups[1] == 0 { assert(dims[1] == 0); }
        if groups[2] == 0 { assert(dims[2] == 0); }
        if size[0] == 0 { assert(dims[3] == 0); }
        if size[1] == 0 { assert(dims[4] == 0); }
        if size[2] == 0 { assert(dims[5] == 0); }
    }
    lemma_total_is_sum(bs, bs.len() as int);
    assert(bs.subrange(0, bs.len() as int) =~= bs);
    let per = forall|i: int| 0 <= i < bs.len() ==> {
        &&& (#[trigger] bs[i]).binding < 32
        &&& 0 < bs[i].size <= 16 * 1024 * 1024
        &&& bs[i].size % 4 == 0
        &&& bs[i].offset % 4 == 0
    };
    let distinct = forall|i: int, j: int| 0 <= i < j < bs.len() ==> (#[trigger] bs[i]).binding != (
    #[trigger] bs[j]).binding && bs[i].buffer_id != bs[j].buffer_id;
    assert((exists|i: int| 0 <= i < bs.len() && spec_bad_binding(bs, i)) <==> !(per && distinct)) by {
        if exists|i: int| 0 <= i < bs.len() && spec_bad_binding(bs, i) {
            let i = choose|i: int| 0 <= i < bs.len() && spec_bad_binding(bs, i);
            if exists|j: int| 0 <= j < i && (bs[j].binding == bs[i].binding || bs[j].buffer_id == bs[i].buffer_id) {
                let j = choose|j: int| 0 <= j < i && (bs[j].binding == bs[i].binding || bs[j].buffer_id == bs[i].buffer_id);
                assert(!(bs[j].binding != bs[i].binding && bs[j].buffer_id != bs[i].buffer_id));
            } else {
                assert(!(bs[i].binding < 32 && 0 < bs[i].size <= 16 * 1024 * 1024 && bs[i].size % 4 == 0
                    && bs[i].offset % 4 == 0));
            }
        }
        if !(per && distinct) {
            if !per {
                let i = choose|i: int| 0 <= i < bs.len() && !({
                    &&& (#[trigger] bs[i]).binding < 32
                    &&& 0 < bs[i].size <= 16 * 1024 * 1024
                    &&& bs[i].size % 4 == 0
                    &&& bs[i].offset % 4 == 0
                });
                assert(spec_bad_binding(bs, i));
            } else {
                let (i, j) = choose|i: int, j: int| 0 <= i < j < bs.len() && !((#[trigger] bs[i]).binding != (
                #[trigger] bs[j]).binding && bs[i].buffer_id != bs[j].buffer_id);
                assert(spec_bad_binding(bs, j));
            }
        }
    }
}

/// Why a binding cannot be read from the storage buffers.
pub enum BindingFault {
    /// No storage buffer has the binding's buffer id.
    NotBound,
    /// The binding's offset plus size overflows `u64`.
    RangeOverflow,
    /// The binding reaches past the end of its buffer.
    TooSmall,
}

/// Why `b` cannot be read from `contents`, if it cannot.
pub open spec fn spec_binding_fault(contents: Map<u64, Seq<u8>>, b: BufferBinding) -> Option<BindingFault> {
    if !contents.contains_key(b.buffer_id) {
        Some(BindingFault::NotBound)
    } else if b.offset + b.size > u64::MAX {
        Some(BindingFault::RangeOverflow)
    } else if b.offset + b.size > contents[b.buffer_id].len() {
        Some(BindingFault::TooSmall)
    } else {
        None
    }
}

/// `e` is the error reported for binding `b` failing with `f`.
pub open spec fn spec_binding_error(contents: Map<u64, Seq<u8>>, b: BufferBinding, f: BindingFault, e: ComputeError) -> bool {
    match f {
        BindingFault::NotBound => e matches ComputeError::BufferNotBound(n) && n == b.binding,
        BindingFault::RangeOverflow => e matches ComputeError::Unsupported(m) && m@
            == "binding range overflow"@,
        BindingFault::TooSmall => e matches ComputeError::StorageBufferTooSmall { needed, available }
            && needed == (if b.offset + b.size <= usize::MAX {
            b.offset + b.size
        } else {
            usize::MAX as int
        }) && available == contents[b.buffer_id].len(),
    }
}

/// The bindings before `i` can be read and the one at `i` cannot.
pub open spec fn spec_first_unfit(contents: Map<u64, Seq<u8>>, bs: Seq<BufferBinding>, i: int) -> bool {
    &&& 0 <= i < bs.len()
    &&& spec_binding_fault(contents, bs[i]) is Some
    &&& forall|j: int| 0 <= j < i ==> spec_binding_fault(contents, #[trigger] bs[j]) is None
}

/// `views` holds, for each binding in order, its number and the bytes it spans.
pub open spec fn spec_views(contents: Map<u64, Seq<u8>>, bs: Seq<BufferBinding>, views: Seq<(u32, Vec<u8>)>) -> bool {
    &&& views.len() == bs.len()
    &&& forall|i: int| 0 <= i < bs.len() ==> {
        &&& (#[trigger] views[i]).0 == bs[i].binding
        &&& views[i].1@ == contents[bs[i].buffer_id].subrange(
            bs[i].offset as int,
            bs[i].offset + bs[i].size,
        )
    }
}

/// The fence exists and has not been signaled.
pub open spec fn spec_fence_ready(sync: GpuSyncManager, fence_id: FenceId) -> bool {
    sync@.fences.contains_key(fence_id.0) && !sync@.fences[fence_id.0].signaled
}

/// The buffers after each binding's readback among the first `n` is written
/// at the binding's offset, in binding order.
pub open spec fn spec_commit(contents: Map<u64, Seq<u8>>, bs: Seq<BufferBinding>, updated: Seq<Vec<u8>>, n: int) -> Map<u64, Seq<u8>>
    decreases n,
{
    if n <= 0 {
        contents
    } else {
        let c = spec_commit(contents, bs, updated, n - 1);
        let b = bs[n - 1];
        c.insert(b.buffer_id, spec_overwrite(c[b.buffer_id], b.offset as int, updated[n - 1]@))
    }
}

/// There is one readback per binding, each as long as its binding.
pub open spec fn spec_readback_matches(bs: Seq<BufferBinding>, updated: Seq<Vec<u8>>) -> bool {
    &&& updated.len() == bs.len()
    &&& forall|i: int| 0 <= i < bs.len() ==> (#[trigger] updated[i])@.len() == bs[i].size
}

/// Writing readback that matches the bindings, each of which fits its
/// buffer, keeps every buffer and its length.
pub proof fn lemma_commit_keeps_sizes(contents: Map<u64, Seq<u8>>, bs: Seq<BufferBinding>, updated: Seq<Vec<u8>>, n: int)
    requires
        0 <= n <= bs.len(),
        spec_readback_matches(bs, updated),
        forall|i: int| 0 <= i < bs.len() ==> spec_binding_fault(contents, #[trigger] bs[i]) is None,
    ensures
        spec_commit(contents, bs, updated, n).dom() == contents.dom(),
        forall|h: u64| #[trigger] contents.contains_key(h) ==> spec_commit(contents, bs, updated, n)[h].len()
            == contents[h].len(),
    decreases n,
{
    if n > 0 {
        lemma_commit_keeps_sizes(contents, bs, updated, n - 1);
        let c = spec_commit(contents, bs, updated, n - 1);
        let b = bs[n - 1];
        assert(spec_binding_fault(contents, b) is None);
        assert(updated[n - 1]@.len() == b.size);
        let d = c.insert(b.buffer_id, spec_overwrite(c[b.buffer_id], b.offset as int, updated[n - 1]@));
        assert(d.dom() =~= contents.dom());
    }
}

/// Compute pipelines and the storage buffers their bindings name.
pub struct ComputePipelineManager {
    next_id: u32,
    pipelines: HashMap<u32, ComputePipeline>,
    storage_buffers: HashMap<u64, StorageBuffer>,
    next_buffer_handle: u64,
}

impl ComputePipelineManager {
    /// The pipelines, by id.
    pub closed spec fn spec_pipelines(&self) -> Map<u32, ComputePipeline> {
        self.pipelines@
    }

    /// The bytes of each storage buffer, by handle.
    pub closed spec fn spec_contents(&self) -> Map<u64, Seq<u8>> {
        Map::new(
            |h: u64| self.storage_buffers@.contains_key(h),
            |h: u64| self.storage_buffers@[h].data@,
        )
    }

    /// The id the next pipeline gets.
    pub closed spec fn spec_next_id(&self) -> u32 {
        self.next_id
    }

    /// The handle the next storage buffer gets.
    pub closed spec fn spec_next_handle(&self) -> u64 {
        self.next_buffer_handle
    }

    /// Every pipeline and buffer is stored under its own id, below the next one.
    pub closed spec fn wf(&self) -> bool {
        &&& 1 <= self.next_id
        &&& 1 <= self.next_buffer_handle
        &&& forall|k: u32| #[trigger]
            self.pipelines@.contains_key(k) ==> self.pipelines@[k].id == k && k < self.next_id
        &&& forall|h: u64| #[trigger]
            self.storage_buffers@.contains_key(h) ==> self.storage_buffers@[h].handle == h && h
                < self.next_buffer_handle
    }

    /// The dispatch passes every check of [`Self::dispatch`]; `fence_ok` says
    /// whether its fence exists unsignaled.
    pub open spec fn spec_dispatch_admits(&self, pipeline_id: u32, wg: DispatchWorkgroup, fence_ok: bool) -> bool {
        let d = self.spec_pipelines()[pipeline_id].descriptor;
        &&& self.spec_pipelines().contains_key(pipeline_id)
        &&& wg.x != 0 && wg.y != 0 && wg.z != 0
        &&& fence_ok
        &&& spec_dispatch_fault(d.workgroup_size@, d.buffer_bindings@, seq![wg.x, wg.y, wg.z]) is None
        &&& forall|i: int| 0 <= i < d.buffer_bindings@.len() ==> spec_binding_fault(
            self.spec_contents(),
            #[trigger] d.buffer_bindings@[i],
        ) is None
    }

    /// `e` is the error of the first check of [`Self::dispatch`] that fails.
    pub open spec fn spec_dispatch_rejects(&self, pipeline_id: u32, wg: DispatchWorkgroup, fence_ok: bool, e: ComputeError) -> bool {
        let d = self.spec_pipelines()[pipeline_id].descriptor;
        let groups = seq![wg.x, wg.y, wg.z];
        let contents = self.spec_contents();
        let bs = d.buffer_bindings@;
        if !self.spec_pipelines().contains_key(pipeline_id) {
            e matches ComputeError::PipelineNotFound(p) && p == pipeline_id
        } else if wg.x == 0 || wg.y == 0 || wg.z == 0 {
            e matches ComputeError::InvalidDispatch(g) && g@ == groups
        } else if !fence_ok {
            e is InvalidFence
        } else {
            match spec_dispatch_fault(d.workgroup_size@, bs, groups) {
                Some(f) => spec_fault_error(f, groups, e),
                None => exists|i: int|
                    spec_first_unfit(contents, bs, i) && spec_binding_error(
                        contents,
                        bs[i],
                        spec_binding_fault(contents, bs[i])->0,
                        e,
                    ),
            }
        }
    }

    pub fn new() -> (r: Self)
        ensures
            r.wf(),
            r.spec_pipelines().is_empty(),
            r.spec_contents().is_empty(),
            r.spec_next_id() == 1,
            r.spec_next_handle() == 1,
    {
        let r = ComputePipelineManager {
            next_id: 1,
            pipelines: HashMap::new(),
            storage_buffers: HashMap::new(),
            next_buffer_handle: 1,
        };
        assert(r.spec_contents() =~= Map::empty());
        r
    }

    /// Stores a pipeline for `desc` under the next id and returns that id.
    pub fn create_pipeline(&mut self, desc: ComputePipelineDescriptor) -> (r: u32)
        requires
            old(self).wf(),
            old(self).spec_next_id() < u32::MAX,
        ensures
            final(self).wf(),
            r == old(self).spec_next_id(),
            !old(self).spec_pipelines().contains_key(r),
            final(self).spec_pipelines() == old(self).spec_pipelines().insert(
                r,
                ComputePipeline { id: r, descriptor: desc },
            ),
            final(self).spec_next_id() == r + 1,
            final(self).spec_contents() == old(self).spec_contents(),
            final(self).spec_next_handle() == old(self).spec_next_handle(),
    {
        let id = self.next_id;
        self.next_id = self.next_id + 1;
        self.pipelines.insert(id, ComputePipeline { id, descriptor: desc });
        assert forall|k: u32| #[trigger] self.pipelines@.contains_key(k) implies self.pipelines@[k].id
            == k && k < self.next_id by {
            if k != id {
                assert(old(self).pipelines@.contains_key(k));
            }
        }
        assert(self.spec_contents() =~= old(self).spec_contents());
        id
    }

    pub fn get_pipeline(&self, id: u32) -> (r: Option<&ComputePipeline>)
        ensures
            match r {
                Some(p) => self.spec_pipelines().contains_key(id) && *p == self.spec_pipelines()[id],
                None => !self.spec_pipelines().contains_key(id),
            },
    {
        self.pipelines.get(&id)
    }

    /// Removes pipeline `id`; says whether it existed.
    pub fn delete_pipeline(&mut self, id: u32) -> (r: bool)
        requires
            old(self).wf(),
        ensures
            final(self).wf(),
            r == old(self).spec_pipelines().contains_key(id),
            final(self).spec_pipelines() == old(self).spec_pipelines().remove(id),
            final(self).spec_next_id() == old(self).spec_next_id(),
            final(self).spec_contents() == old(self).spec_contents(),
            final(self).spec_next_handle() == old(self).spec_next_handle(),
    {
        let r = self.pipelines.remove(&id).is_some();
        assert forall|k: u32| #[trigger] self.pipelines@.contains_key(k) implies self.pipelines@[k].id
            == k && k < self.next_id by {
            assert(old(self).pipelines@.contains_key(k));
        }
        assert(self.spec_contents() =~= old(self).spec_contents());
        r
    }

    /// Creates a zero-filled storage buffer of `size` bytes under the next handle.
    pub fn create_storage_buffer(&mut self, size: usize) -> (r: u64)
        requires
            old(self).wf(),
            old(self).spec_next_handle() < u64::MAX,
        ensures
            final(self).wf(),
            r == old(self).spec_next_handle(),
            !old(self).spec_contents().contains_key(r),
            final(self).spec_contents() == old(self).spec_contents().insert(
                r,
                Seq::new(size as nat, |i: int| 0u8),
            ),
            final(self).spec_next_handle() == r + 1,
            final(self).spec_pipelines() == old(self).spec_pipelines(),
            final(self).spec_next_id() == old(self).spec_next_id(),
    {
        let handle = self.next_buffer_handle;
        self.next_buffer_handle = self.next_buffer_handle + 1;
        let data = vec![0u8; size];
        assert(data@ =~= Seq::new(size as nat, |i: int| 0u8));
        self.storage_buffers.insert(handle, StorageBuffer { handle, data });
        assert forall|h: u64| #[trigger] self.storage_buffers@.contains_key(h) implies self.storage_buffers@[h].handle
            == h && h < self.next_buffer_handle by {
            if h != handle {
                assert(old(self).storage_buffers@.contains_key(h));
            }
        }
        assert(self.spec_contents() =~= old(self).spec_contents().insert(
            handle,
            Seq::new(size as nat, |i: int| 0u8),
        ));
        handle
    }

    /// The size of storage buffer `buffer`, if it exists.
    pub fn storage_buffer_size(&self, buffer: u64) -> (r: Option<usize>)
        ensures
            match r {
                Some(n) => self.spec_contents().contains_key(buffer) && n == self.spec_contents()[buffer].len(),
                None => !self.spec_contents().contains_key(buffer),
            },
    {
        match self.storage_buffers.get(&buffer) {
            Some(b) => Some(b.data.len()),
            None => None,
        }
    }

    /// Writes `data` into buffer `handle` from byte `offset` on.
    pub fn write_storage_buffer(&mut self, handle: u64, offset: usize, data: &[u8]) -> (r: Result<(), ComputeError>)
        requires
            old(self).wf(),
        ensures
            final(self).wf(),
            final(self).spec_pipelines() == old(self).spec_pipelines(),
            final(self).spec_next_id() == old(self).spec_next_id(),
            final(self).spec_next_handle() == old(self).spec_next_handle(),
            !old(self).spec_contents().contains_key(handle) ==> (r matches Err(
                ComputeError::BufferNotBound(n),
            ) && n == 0),
            old(self).spec_contents().contains_key(handle) && offset + data@.len() > usize::MAX
                ==> (r matches Err(ComputeError::Unsupported(m)) && m@ == "buffer range overflow"@),
            old(self).spec_contents().contains_key(handle) && offset + data@.len() <= usize::MAX
                && offset + data@.len() > old(self).spec_contents()[handle].len() ==> (r matches Err(
                ComputeError::StorageBufferTooSmall { needed, available },
            ) && needed == offset + data@.len() && available == old(self).spec_contents()[handle].len()),
            r is Ok <==> old(self).spec_contents().contains_key(handle) && offset + data@.len()
                <= old(self).spec_contents()[handle].len(),
            r is Ok ==> final(self).spec_contents() == old(self).spec_contents().insert(
                handle,
                spec_overwrite(old(self).spec_contents()[handle], offset as int, data@),
            ),
            r is Err ==> final(self).spec_contents() == old(self).spec_contents(),
    {
        let len = match self.storage_buffers.get(&handle) {
            Some(b) => b.data.len(),
            None => {
                return Err(ComputeError::BufferNotBound(0));
            },
        };
        let end = match offset.checked_add(data.len()) {
            Some(e) => e,
            None => {
                return Err(ComputeError::Unsupported(String::from_str("buffer range overflow")));
            },
        };
        if end > len {
            return Err(ComputeError::StorageBufferTooSmall { needed: end, available: len });
        }
        let mut buf = match self.storage_buffers.remove(&handle) {
            Some(b) => b,
            None => {
                return Err(ComputeError::BufferNotBound(0));
            },
        };
        overwrite(&mut buf.data, offset, data);
        self.storage_buffers.insert(handle, buf);
        assert forall|h: u64| #[trigger] self.storage_buffers@.contains_key(h) implies self.storage_buffers@[h].handle
            == h && h < self.next_buffer_handle by {
            assert(old(self).storage_buffers@.contains_key(h));
        }
        assert(self.spec_contents() =~= old(self).spec_contents().insert(
            handle,
            spec_overwrite(old(self).spec_contents()[handle], offset as int, data@),
        ));
        Ok(())
    }

    /// Reads `len` bytes of buffer `handle` from byte `offset` on.
    pub fn read_storage_buffer(&self, handle: u64, offset: usize, len: usize) -> (r: Result<Vec<u8>, ComputeError>)
        ensures
            !self.spec_contents().contains_key(handle) ==> (r matches Err(ComputeError::Generic(m))
                && m@ == "buffer "@ + spec_decimal(handle as nat) + " not found"@),
            self.spec_contents().contains_key(handle) && offset + len > usize::MAX ==> (r matches Err(
                ComputeError::Unsupported(m),
            ) && m@ == "buffer range overflow"@),
            self.spec_contents().contains_key(handle) && offset + len <= usize::MAX && offset + len
                > self.spec_contents()[handle].len() ==> (r matches Err(
                ComputeError::StorageBufferTooSmall { needed, available },
            ) && needed == offset + len && available == self.spec_contents()[handle].len()),
            r is Ok <==> self.spec_contents().contains_key(handle) && offset + len
                <= self.spec_contents()[handle].len(),
            r matches Ok(v) ==> v@ == self.spec_contents()[handle].subrange(
                offset as int,
                offset + len,
            ),
    {
        let buf = match self.storage_buffers.get(&handle) {
            Some(b) => b,
            None => {
                let mut m = String::from_str("buffer ");
                let digits = decimal_string(handle);
                m.append(digits.as_str());
                m.append(" not found");
                return Err(ComputeError::Generic(m));
            },
        };
        let blen = buf.data.len();
        let end = match offset.checked_add(len) {
            Some(e) => e,
            None => {
                return Err(ComputeError::Unsupported(String::from_str("buffer range overflow")));
            },
        };
        if end > buf.data.len() {
            return Err(ComputeError::StorageBufferTooSmall { needed: end, available: buf.data.len() });
        }
        Ok(copy_range(buf.data.as_slice(), offset, end))
    }

    /// Runs every check of a dispatch and, where all pass, copies out the bytes
    /// each binding spans, in binding order: what a backend uploads.
    pub fn dispatch_views(
        &self,
        pipeline_id: u32,
        workgroups: DispatchWorkgroup,
        sync: &GpuSyncManager,
        fence_id: FenceId,
    ) -> (r: Result<Vec<(u32, Vec<u8>)>, ComputeError>)
        ensures
            r is Ok <==> self.spec_dispatch_admits(pipeline_id, workgroups, spec_fence_ready(*sync, fence_id)),
            r matches Err(e) ==> self.spec_dispatch_rejects(
                pipeline_id,
                workgroups,
                spec_fence_ready(*sync, fence_id),
                e,
            ),
            r matches Ok(v) ==> spec_views(
                self.spec_contents(),
                self.spec_pipelines()[pipeline_id].descriptor.buffer_bindings@,
                v@,
            ),
    {
        let ghost fence_ok = spec_fence_ready(*sync, fence_id);
        let pipeline = match self.pipelines.get(&pipeline_id) {
            Some(p) => p,
            None => {
                return Err(ComputeError::PipelineNotFound(pipeline_id));
            },
        };
        let groups = [workgroups.x, workgroups.y, workgroups.z];
        assert(groups@ =~= seq![workgroups.x, workgroups.y, workgroups.z]);
        if workgroups.x == 0 || workgroups.y == 0 || workgroups.z == 0 {
            return Err(ComputeError::InvalidDispatch(groups));
        }
        let ready = match sync.get_fence(fence_id) {
            Some(f) => !f.is_signaled(sync),
            None => false,
        };
        if !ready {
            return Err(ComputeError::InvalidFence);
        }
        match validate_dispatch(&pipeline.descriptor, groups) {
            Ok(()) => {},
            Err(e) => {
                return Err(e);
            },
        }
        let bs = &pipeline.descriptor.buffer_bindings;
        let ghost contents = self.spec_contents();
        let mut views: Vec<(u32, Vec<u8>)> = Vec::new();
        let mut i: usize = 0;
        while i < bs.len()
            invariant
                i <= bs@.len(),
                contents == self.spec_contents(),
                bs@ == self.spec_pipelines()[pipeline_id].descriptor.buffer_bindings@,
                self.spec_pipelines().contains_key(pipeline_id),
                workgroups.x != 0 && workgroups.y != 0 && workgroups.z != 0,
                fence_ok,
                fence_ok == spec_fence_ready(*sync, fence_id),
                spec_dispatch_fault(
                    self.spec_pipelines()[pipeline_id].descriptor.workgroup_size@,
                    bs@,
                    seq![workgroups.x, workgroups.y, workgroups.z],
                ) is None,
                views@.len() == i,
                forall|j: int| 0 <= j < i ==> spec_binding_fault(contents, #[trigger] bs@[j]) is None,
                forall|j: int| 0 <= j < i ==> {
                    &&& (#[trigger] views@[j]).0 == bs@[j].binding
                    &&& views@[j].1@ == contents[bs@[j].buffer_id].subrange(
                        bs@[j].offset as int,
                        bs@[j].offset + bs@[j].size,
                    )
                },
            decreases bs@.len() - i,
        {
            let b = bs[i];
            let buf = match self.storage_buffers.get(&b.buffer_id) {
                Some(buf) => buf,
                None => {
                    proof {
                        assert(spec_first_unfit(contents, bs@, i as int));
                    }
                    return Err(ComputeError::BufferNotBound(b.binding));
                },
            };
            assert(contents[b.buffer_id] == buf.data@);
            let end = match b.offset.checked_add(b.size) {
                Some(e) => e,
                None => {
                    proof {
                        assert(spec_first_unfit(contents, bs@, i as int));
                    }
                    return Err(ComputeError::Unsupported(String::from_str("binding range overflow")));
                },
            };
            let len = buf.data.len();
            if end > len as u64 {
                let needed: usize = if end <= usize::MAX as u64 {
                    end as usize
                } else {
                    usize::MAX
                };
                proof {
                    assert(spec_first_unfit(contents, bs@, i as int));
                }
                return Err(ComputeError::StorageBufferTooSmall { needed, available: len });
            }
            let view = copy_range(buf.data.as_slice(), b.offset as usize, end as usize);
            views.push((b.binding, view));
            i = i + 1;
        }
        Ok(views)
    }

    /// The answer of [`Self::dispatch`], which changes nothing.
    pub fn check_dispatch(
        &self,
        pipeline_id: u32,
        workgroups: DispatchWorkgroup,
        sync: &GpuSyncManager,
        fence_id: FenceId,
    ) -> (r: Result<(), ComputeError>)
        ensures
            r matches Err(e) && (if self.spec_dispatch_admits(pipeline_id, workgroups, spec_fence_ready(*sync, fence_id)) {
                e is BackendUnavailable
            } else {
                self.spec_dispatch_rejects(pipeline_id, workgroups, spec_fence_ready(*sync, fence_id), e)
            }),
    {
        match self.dispatch_views(pipeline_id, workgroups, sync, fence_id) {
            Ok(_) => Err(ComputeError::BackendUnavailable),
            Err(e) => Err(e),
        }
    }

    /// Checks a dispatch of `workgroups` workgroups on pipeline `pipeline_id`
    /// whose completion would signal `fence_id`. Nothing here executes a
    /// shader, so a dispatch that passes every check is answered with
    /// [`ComputeError::BackendUnavailable`]; no buffer and no fence changes.
    pub fn dispatch(
        &mut self,
        pipeline_id: u32,
        workgroups: DispatchWorkgroup,
        sync: &GpuSyncManager,
        fence_id: FenceId,
    ) -> (r: Result<(), ComputeError>)
        ensures
            *final(self) == *old(self),
            r matches Err(e) && (if old(self).spec_dispatch_admits(pipeline_id, workgroups, spec_fence_ready(*sync, fence_id)) {
                e is BackendUnavailable
            } else {
                old(self).spec_dispatch_rejects(pipeline_id, workgroups, spec_fence_ready(*sync, fence_id), e)
            }),
    {
        self.check_dispatch(pipeline_id, workgroups, sync, fence_id)
    }

    /// Writes a backend's readback of an admitted dispatch into the storage
    /// buffers, one readback per binding at the binding's offset, and then
    /// signals `fence_id` with value 1. Readback whose count or sizes differ
    /// from the bindings is refused and nothing changes.
    pub fn commit_dispatch(
        &mut self,
        pipeline_id: u32,
        workgroups: DispatchWorkgroup,
        updated: Vec<Vec<u8>>,
        sync: &mut GpuSyncManager,
        fence_id: FenceId,
    ) -> (r: Result<(), ComputeError>)
        requires
            old(self).wf(),
            old(sync).wf(),
            old(self).spec_dispatch_admits(pipeline_id, workgroups, spec_fence_ready(*old(sync), fence_id)),
        ensures
            final(self).wf(),
            final(sync).wf(),
            final(self).spec_pipelines() == old(self).spec_pipelines(),
            final(self).spec_next_id() == old(self).spec_next_id(),
            final(self).spec_next_handle() == old(self).spec_next_handle(),
            r is Ok <==> spec_readback_matches(
                old(self).spec_pipelines()[pipeline_id].descriptor.buffer_bindings@,
                updated@,
            ),
            r matches Err(e) ==> (e matches ComputeError::Generic(m) && m@
                == "backend readback sizes disagree"@),
            r is Err ==> final(self).spec_contents() == old(self).spec_contents() && *final(sync)
                == *old(sync),
            r is Ok ==> final(self).spec_contents() == spec_commit(
                old(self).spec_contents(),
                old(self).spec_pipelines()[pipeline_id].descriptor.buffer_bindings@,
                updated@,
                old(self).spec_pipelines()[pipeline_id].descriptor.buffer_bindings@.len() as int,
            ),
            r is Ok ==> final(sync)@ == old(sync)@.spec_signal_fence(fence_id, 1),
    {
        let pipeline = match self.pipelines.get(&pipeline_id) {
            Some(p) => p,
            None => {
                return Err(ComputeError::PipelineNotFound(pipeline_id));
            },
        };
        let bs = pipeline.descriptor.buffer_bindings.clone();
        assert(bs@ == old(self).spec_pipelines()[pipeline_id].descriptor.buffer_bindings@);
        let n = bs.len();
        if updated.len() != n {
            return Err(ComputeError::Generic(String::from_str("backend readback sizes disagree")));
        }
        let mut k: usize = 0;
        while k < n
            invariant
                k <= n,
                n == bs@.len(),
                updated@.len() == n,
                forall|j: int| 0 <= j < k ==> (#[trigger] updated@[j])@.len() == bs@[j].size,
                *self == *old(self),
                *sync == *old(sync),
                bs@ == old(self).spec_pipelines()[pipeline_id].descriptor.buffer_bindings@,
                old(self).wf(),
                old(sync).wf(),
            decreases n - k,
        {
            if updated[k].len() as u64 != bs[k].size {
                assert(updated@[k as int]@.len() != bs@[k as int].size);
                return Err(ComputeError::Generic(String::from_str("backend readback sizes disagree")));
            }
            k = k + 1;
        }
        let ghost start = self.spec_contents();
        let mut i: usize = 0;
        while i < n
            invariant
                i <= n,
                n == bs@.len(),
                updated@.len() == n,
                self.wf(),
                self.spec_pipelines() == old(self).spec_pipelines(),
                self.spec_next_id() == old(self).spec_next_id(),
                self.spec_next_handle() == old(self).spec_next_handle(),
                start == old(self).spec_contents(),
                spec_readback_matches(bs@, updated@),
                forall|j: int| 0 <= j < n ==> spec_binding_fault(start, #[trigger] bs@[j]) is None,
                self.spec_contents() == spec_commit(start, bs@, updated@, i as int),
                self.spec_contents().dom() == start.dom(),
                forall|h: u64| #[trigger] start.contains_key(h) ==> self.spec_contents()[h].len() == start[h].len(),
            decreases n - i,
        {
            let b = bs[i];
            assert(spec_binding_fault(start, bs@[i as int]) is None);
            let ghost before = self.spec_contents();
            assert(before.contains_key(b.buffer_id));
            assert(self.storage_buffers@.contains_key(b.buffer_id));
            let ghost old_map = self.storage_buffers@;
            let mut buf = match self.storage_buffers.remove(&b.buffer_id) {
                Some(x) => x,
                None => {
                    assert(false);
                    return Err(ComputeError::Generic(String::from_str("backend readback sizes disagree")));
                },
            };
            assert(buf.data@ == before[b.buffer_id]);
            assert(b.offset + updated@[i as int]@.len() <= buf.data@.len());
            let dl = buf.data.len();
            assert(b.offset as usize == b.offset);
            overwrite(&mut buf.data, b.offset as usize, updated[i].as_slice());
            self.storage_buffers.insert(b.buffer_id, buf);
            proof {
                assert(self.storage_buffers@ == old_map.insert(b.buffer_id, buf));
                assert(self.spec_contents() =~= before.insert(
                    b.buffer_id,
                    spec_overwrite(before[b.buffer_id], b.offset as int, updated@[i as int]@),
                ));
                assert forall|h: u64| #[trigger] self.storage_buffers@.contains_key(h) implies self.storage_buffers@[h].handle
                    == h && h < self.next_buffer_handle by {
                    assert(old_map.contains_key(h));
                }
            }
            i = i + 1;
        }
        sync.signal_fence(fence_id, 1);
        Ok(())
    }

    pub fn storage_buffer_count(&self) -> (r: usize)
        ensures
            r == self.spec_contents().dom().len(),
    {
        assert(self.spec_contents().dom() =~= self.storage_buffers@.dom());
        self.storage_buffers.len()
    }
}

impl Default for ComputePipelineManager {
    fn default() -> (r: Self)
        ensures
            r.wf(),
            r.spec_pipelines().is_empty(),
            r.spec_contents().is_empty(),
            r.spec_next_id() == 1,
            r.spec_next_handle() == 1,
    {
        Self::new()
    }
}

/// What a storage-buffer write put in, a read of the same range gives back:
/// after `write_storage_buffer(handle, offset, data)` succeeds, the buffer
/// keeps its length, its bytes from `offset` for `data.len()` are `data`, its
/// other bytes and every other buffer are unchanged.
pub proof fn law_storage_write_then_read(before: Map<u64, Seq<u8>>, handle: u64, offset: int, data: Seq<u8>)
    requires
        before.contains_key(handle),
        0 <= offset,
        offset + data.len() <= before[handle].len(),
    ensures
        ({
            let after = before.insert(handle, spec_overwrite(before[handle], offset, data));
            &&& after[handle].len() == before[handle].len()
            &&& after[handle].subrange(offset, offset + data.len()) == data
            &&& forall|i: int| 0 <= i < before[handle].len() && !(offset <= i < offset + data.len())
                ==> after[handle][i] == before[handle][i]
            &&& forall|h: u64| h != handle ==> after.contains_key(h) == before.contains_key(h) && after[h]
                == before[h]
        }),
{
    let after = before.insert(handle, spec_overwrite(before[handle], offset, data));
    assert(after[handle].subrange(offset, offset + data.len()) =~= data);
}

} // verus!
