//! SGPU command submission over a caller-configured compute manager.
//!
//! The host registers guest resource handles (mapped onto existing storage
//! buffers of the manager) and guest kernel ids (mapped onto existing
//! pipelines). A submitted list is checked as a whole before any command
//! runs; buffer copies then run in order. Through `submit`, a compute
//! dispatch goes through the command executor and the session's manager,
//! which cannot execute compute; through `submit_begin` and `submit_resume`,
//! each dispatch the manager admits is handed to a host backend and its
//! readback committed before the list goes on. Registration is a trusted
//! host operation; the wire carries neither pointers nor shader bytes.
use vstd::prelude::*;
use crate::text::{decimal_string, spec_decimal};
use crate::command_executor::{CommandExecutor, ExecutorError, GpuCommand, RecordedCommandBuffer, spec_dispatch_error};
use crate::compute::{
    validate_dispatch, ComputeError, ComputePipelineManager, DispatchWorkgroup, spec_dispatch_fault,
    spec_fault_error, spec_views, spec_readback_matches, spec_commit, lemma_commit_keeps_sizes,
};
use crate::sync::GpuSyncManager;
use crate::framebuffer::LinearFramebuffer;
use crate::sgpu_command::{SgpuCommand, SgpuCommandList, SgpuWireError, SGPU_MAX_COMMANDS};
use crate::texture::TextureManager;
use crate::wire::spec_overwrite;

verus! {

pub const SGPU_MAX_RESOURCES: usize = 64;
pub const SGPU_MAX_KERNELS: usize = 256;
pub const SGPU_MAX_RESOURCE_BYTES: u64 = 16 * 1024 * 1024;
pub const SGPU_MAX_TOTAL_RESOURCE_BYTES: u64 = 64 * 1024 * 1024;

#[derive(Debug)]
pub enum SgpuComputeError {
    Wire(SgpuWireError),
    Compute(ComputeError),
    Executor(ExecutorError),
    ResourceNotFound(u64),
    DuplicateResource,
    KernelNotFound(u32),
    DuplicateKernel(u32),
    UnregisteredBinding(u64),
    ResourceInUse(u64),
    Range,
    Limit,
    ZeroHandle,
    BlockMismatch,
    UnsupportedCommand(u8),
}

/// A dispatch that a submission reached and that a host backend is to run:
/// command `index` of the list, on pipeline `pipeline_id` over `workgroups`,
/// with `views` the bytes each of the pipeline's bindings spans, in binding
/// order.
#[derive(Debug)]
pub struct SgpuPending {
    pub index: usize,
    pub pipeline_id: u32,
    pub workgroups: DispatchWorkgroup,
    pub views: Vec<(u32, Vec<u8>)>,
}

/// Where a submission driven by a host backend stands: every command ran
/// (with the list's length), or a dispatch waits for the backend.
#[derive(Debug)]
pub enum SgpuProgress {
    Finished(usize),
    Dispatch(SgpuPending),
}

/// What running `cmds` from `from` on answers, starting from buffers `c0` and
/// completion count `done0`, with kernels `ks` and resources `rs`, and
/// leaving `after`: the copies up to the next dispatch run; a dispatch that
/// the manager admits is handed out with its binding views, one it refuses
/// is reported with the manager's error; with no dispatch left, every copy
/// runs and the list's length is answered.
pub open spec fn spec_run_from(
    ks: Seq<(u32, u32)>,
    rs: Seq<(u64, u64, u64)>,
    c0: Map<u64, Seq<u8>>,
    done0: u64,
    cmds: Seq<SgpuCommand>,
    from: int,
    after: SgpuComputeSession,
    r: Result<SgpuProgress, SgpuSubmissionError>,
) -> bool {
    if exists|k: int| spec_next_dispatch(cmds, from, k) {
        exists|k: int|
            #[trigger] spec_next_dispatch(cmds, from, k) && {
                let pid = spec_find_kernel(ks, cmds[k]->kernel_id)->0;
                let wg = DispatchWorkgroup { x: cmds[k]->grid.0, y: cmds[k]->grid.1, z: cmds[k]->grid.2 };
                let m = after.spec_manager();
                &&& m.spec_contents() == spec_copies_range(c0, rs, cmds, from, k)
                &&& after.spec_completed() == done0 + (k - from)
                &&& if m.spec_dispatch_admits(pid, wg, true) {
                    r matches Ok(SgpuProgress::Dispatch(p)) && p.index == k && p.pipeline_id == pid
                        && p.workgroups == wg && spec_views(
                        m.spec_contents(),
                        m.spec_pipelines()[pid].descriptor.buffer_bindings@,
                        p.views@,
                    )
                } else {
                    r matches Err(se) && se.command_index == Some(k as usize) && se.completed == k && (
                    se.error matches SgpuComputeError::Executor(ExecutorError::Compute(ce))
                        && m.spec_dispatch_rejects(pid, wg, true, ce))
                }
            }
    } else {
        &&& r matches Ok(SgpuProgress::Finished(n)) && n == cmds.len()
        &&& after.spec_manager().spec_contents() == spec_copies_range(c0, rs, cmds, from, cmds.len() as int)
        &&& after.spec_completed() == done0 + (cmds.len() - from)
    }
}

/// A failed submission: the failed command, if one, and how many commands
/// completed before it.
#[derive(Debug)]
pub struct SgpuSubmissionError {
    pub command_index: Option<usize>,
    pub completed: usize,
    pub error: SgpuComputeError,
}

impl SgpuComputeError {
    pub open spec fn spec_message(&self) -> Seq<char> {
        match self {
            SgpuComputeError::Wire(e) => e.spec_message(),
            SgpuComputeError::Compute(e) => e.spec_message(),
            SgpuComputeError::Executor(e) => e.spec_message(),
            SgpuComputeError::ResourceNotFound(h) => "SGPU resource not registered: "@ + spec_decimal(*h as nat),
            SgpuComputeError::DuplicateResource => "SGPU resource handle or backing buffer already registered"@,
            SgpuComputeError::KernelNotFound(k) => "SGPU kernel not registered: "@ + spec_decimal(*k as nat),
            SgpuComputeError::DuplicateKernel(k) => "SGPU kernel handle already registered: "@ + spec_decimal(
                *k as nat,
            ),
            SgpuComputeError::UnregisteredBinding(b) => "SGPU kernel references an unregistered backing buffer: "@
                + spec_decimal(*b as nat),
            SgpuComputeError::ResourceInUse(h) => "SGPU resource is referenced by a registered kernel: "@
                + spec_decimal(*h as nat),
            SgpuComputeError::Range => "SGPU resource byte range overflow or out of bounds"@,
            SgpuComputeError::Limit => "SGPU registration, command, or completion limit exceeded"@,
            SgpuComputeError::ZeroHandle => "SGPU handles must be nonzero"@,
            SgpuComputeError::BlockMismatch => "SGPU dispatch block differs from its registered kernel"@,
            SgpuComputeError::UnsupportedCommand(t) => "SGPU command tag "@ + spec_decimal(*t as nat)
                + " is unsupported by the compute adapter"@,
        }
    }

    /// The error's text.
    pub fn message(&self) -> (r: String)
        ensures
            r@ == self.spec_message(),
    {
        match self {
            SgpuComputeError::Wire(e) => e.message(),
            SgpuComputeError::Compute(e) => e.message(),
            SgpuComputeError::Executor(e) => e.message(),
            SgpuComputeError::ResourceNotFound(h) => {
                let mut m = String::from_str("SGPU resource not registered: ");
                m.append(decimal_string(*h).as_str());
                m
            },
            SgpuComputeError::DuplicateResource => String::from_str(
                "SGPU resource handle or backing buffer already registered",
            ),
            SgpuComputeError::KernelNotFound(k) => {
                let mut m = String::from_str("SGPU kernel not registered: ");
                m.append(decimal_string(*k as u64).as_str());
                m
            },
            SgpuComputeError::DuplicateKernel(k) => {
                let mut m = String::from_str("SGPU kernel handle already registered: ");
                m.append(decimal_string(*k as u64).as_str());
                m
            },
            SgpuComputeError::UnregisteredBinding(b) => {
                let mut m = String::from_str("SGPU kernel references an unregistered backing buffer: ");
                m.append(decimal_string(*b).as_str());
                m
            },
            SgpuComputeError::ResourceInUse(h) => {
                let mut m = String::from_str("SGPU resource is referenced by a registered kernel: ");
                m.append(decimal_string(*h).as_str());
                m
            },
            SgpuComputeError::Range => String::from_str("SGPU resource byte range overflow or out of bounds"),
            SgpuComputeError::Limit => String::from_str("SGPU registration, command, or completion limit exceeded"),
            SgpuComputeError::ZeroHandle => String::from_str("SGPU handles must be nonzero"),
            SgpuComputeError::BlockMismatch => String::from_str(
                "SGPU dispatch block differs from its registered kernel",
            ),
            SgpuComputeError::UnsupportedCommand(t) => {
                let mut m = String::from_str("SGPU command tag ");
                m.append(decimal_string(*t as u64).as_str());
                m.append(" is unsupported by the compute adapter");
                m
            },
        }
    }
}

impl SgpuSubmissionError {
    pub open spec fn spec_message(&self) -> Seq<char> {
        "SGPU submission failed at "@ + match self.command_index {
            Some(i) => "Some("@ + spec_decimal(i as nat) + ")"@,
            None => "None"@,
        } + ", after "@ + spec_decimal(self.completed as nat) + " commands: "@ + self.error.spec_message()
    }

    /// The error's text.
    pub fn message(&self) -> (r: String)
        ensures
            r@ == self.spec_message(),
    {
        let mut m = String::from_str("SGPU submission failed at ");
        match self.command_index {
            Some(i) => {
                m.append("Some(");
                m.append(decimal_string(i as u64).as_str());
                m.append(")");
            },
            None => {
                m.append("None");
            },
        }
        m.append(", after ");
        m.append(decimal_string(self.completed as u64).as_str());
        m.append(" commands: ");
        m.append(self.error.message().as_str());
        m
    }
}

/// The registered resource with guest handle `h`, as (handle, buffer, size).
pub open spec fn spec_find_resource(rs: Seq<(u64, u64, u64)>, h: u64) -> Option<(u64, u64, u64)> {
    if exists|i: int| 0 <= i < rs.len() && (#[trigger] rs[i]).0 == h {
        Some(rs[choose|i: int| 0 <= i < rs.len() && (#[trigger] rs[i]).0 == h])
    } else {
        None
    }
}

/// The registered size of resource `h` (0 when unregistered).
pub open spec fn spec_size_of(rs: Seq<(u64, u64, u64)>, h: u64) -> u64 {
    match spec_find_resource(rs, h) {
        Some(res) => res.2,
        None => 0,
    }
}

/// The buffer backing resource `h` (0 when unregistered).
pub open spec fn spec_buffer_of(rs: Seq<(u64, u64, u64)>, h: u64) -> u64 {
    match spec_find_resource(rs, h) {
        Some(res) => res.1,
        None => 0,
    }
}

/// The buffers after a copy command: the first `size` bytes of the source
/// resource's buffer written over the start of the destination's.
pub open spec fn spec_apply_copy(c: Map<u64, Seq<u8>>, rs: Seq<(u64, u64, u64)>, cmd: SgpuCommand) -> Map<u64, Seq<u8>> {
    match cmd {
        SgpuCommand::CopyBuffer { src, dst, size } => {
            let sb = spec_buffer_of(rs, src);
            let db = spec_buffer_of(rs, dst);
            c.insert(db, spec_overwrite(c[db], 0, c[sb].subrange(0, size as int)))
        },
        _ => c,
    }
}

/// The buffers after the commands from `from` up to `k`, all copies, ran in order.
pub open spec fn spec_copies_range(
    c: Map<u64, Seq<u8>>,
    rs: Seq<(u64, u64, u64)>,
    cmds: Seq<SgpuCommand>,
    from: int,
    k: int,
) -> Map<u64, Seq<u8>>
    decreases k - from,
{
    if k <= from {
        c
    } else {
        spec_apply_copy(spec_copies_range(c, rs, cmds, from, k - 1), rs, cmds[k - 1])
    }
}

/// The buffers after the first `k` commands, all copies, ran in order.
pub open spec fn spec_copies(c: Map<u64, Seq<u8>>, rs: Seq<(u64, u64, u64)>, cmds: Seq<SgpuCommand>, k: int) -> Map<
    u64,
    Seq<u8>,
> {
    spec_copies_range(c, rs, cmds, 0, k)
}

/// `k` is the first dispatch of `cmds` at or after `from`.
pub open spec fn spec_next_dispatch(cmds: Seq<SgpuCommand>, from: int, k: int) -> bool {
    &&& 0 <= from <= k < cmds.len()
    &&& cmds[k] is ComputeDispatch
    &&& forall|j: int| from <= j < k ==> !(#[trigger] cmds[j] is ComputeDispatch)
}

/// The command at `k` is the first dispatch of `cmds`.
pub open spec fn spec_first_dispatch(cmds: Seq<SgpuCommand>, k: int) -> bool {
    &&& 0 <= k < cmds.len()
    &&& cmds[k] is ComputeDispatch
    &&& forall|j: int| 0 <= j < k ==> !(#[trigger] cmds[j] is ComputeDispatch)
}

/// The registered resource backed by buffer `b`.
pub open spec fn spec_find_by_buffer(rs: Seq<(u64, u64, u64)>, b: u64) -> Option<(u64, u64, u64)> {
    if exists|i: int| 0 <= i < rs.len() && (#[trigger] rs[i]).1 == b {
        Some(rs[choose|i: int| 0 <= i < rs.len() && (#[trigger] rs[i]).1 == b])
    } else {
        None
    }
}

/// The pipeline registered for guest kernel `g`.
pub open spec fn spec_find_kernel(ks: Seq<(u32, u32)>, g: u32) -> Option<u32> {
    if exists|i: int| 0 <= i < ks.len() && (#[trigger] ks[i]).0 == g {
        Some(ks[choose|i: int| 0 <= i < ks.len() && (#[trigger] ks[i]).0 == g].1)
    } else {
        None
    }
}

/// Sum of the registered sizes.
pub open spec fn spec_total_size(rs: Seq<(u64, u64, u64)>) -> int
    decreases rs.len(),
{
    if rs.len() == 0 {
        0
    } else {
        spec_total_size(rs.drop_last()) + rs.last().2
    }
}

/// A range of `length` bytes at `offset` lies inside `size` bytes and both
/// numbers fit `usize`.
pub open spec fn spec_range_ok(size: u64, offset: u64, length: u64) -> bool {
    offset + length <= size && offset <= usize::MAX && length <= usize::MAX
}

/// Checks that `length` bytes at `offset` lie inside `size` bytes and fit `usize`.
pub fn checked_range(size: u64, offset: u64, length: u64) -> (r: Result<(usize, usize), SgpuComputeError>)
    ensures
        r is Ok <==> spec_range_ok(size, offset, length),
        r matches Ok((o, l)) ==> o == offset && l == length,
        r matches Err(e) ==> e is Range,
{
    let end = match offset.checked_add(length) {
        Some(e) => e,
        None => {
            return Err(SgpuComputeError::Range);
        },
    };
    if end > size {
        return Err(SgpuComputeError::Range);
    }
    if offset > usize::MAX as u64 || length > usize::MAX as u64 {
        return Err(SgpuComputeError::Range);
    }
    Ok((offset as usize, length as usize))
}

pub struct SgpuComputeSession {
    manager: ComputePipelineManager,
    executor: CommandExecutor,
    textures: TextureManager,
    resources: Vec<(u64, u64, u64)>,
    kernels: Vec<(u32, u32)>,
    resource_bytes: u64,
    completed: u64,
}

impl SgpuComputeSession {
    /// Registered resources as (guest handle, manager buffer, size).
    pub closed spec fn spec_resources(&self) -> Seq<(u64, u64, u64)> {
        self.resources@
    }

    /// Registered kernels as (guest id, pipeline id).
    pub closed spec fn spec_kernels(&self) -> Seq<(u32, u32)> {
        self.kernels@
    }

    pub closed spec fn spec_manager(&self) -> ComputePipelineManager {
        self.manager
    }

    pub closed spec fn spec_resource_bytes(&self) -> u64 {
        self.resource_bytes
    }

    pub closed spec fn spec_completed(&self) -> u64 {
        self.completed
    }

    /// Handles and buffers are registered once each, the byte total is the
    /// sum of registered sizes within the caps, every registered buffer
    /// exists in the manager with its registered size, and the internal
    /// executor is idle.
    pub closed spec fn wf(&self) -> bool {
        &&& self.manager.wf()
        &&& self.executor.wf()
        &&& self.textures.wf()
        &&& self.executor.spec_pass() is None
        &&& self.executor.spec_executed() == 0
        &&& self.resources@.len() <= SGPU_MAX_RESOURCES
        &&& self.kernels@.len() <= SGPU_MAX_KERNELS
        &&& forall|i: int, j: int|
            0 <= i < j < self.resources@.len() ==> (#[trigger] self.resources@[i]).0 != (
            #[trigger] self.resources@[j]).0 && self.resources@[i].1 != self.resources@[j].1
        &&& forall|i: int, j: int|
            0 <= i < j < self.kernels@.len() ==> (#[trigger] self.kernels@[i]).0 != (
            #[trigger] self.kernels@[j]).0
        &&& self.resource_bytes == spec_total_size(self.resources@)
        &&& self.resource_bytes <= SGPU_MAX_TOTAL_RESOURCE_BYTES
        &&& forall|i: int|
            0 <= i < self.resources@.len() ==> {
                let (h, b, n) = #[trigger] self.resources@[i];
                &&& h != 0
                &&& b != 0
                &&& 0 < n <= SGPU_MAX_RESOURCE_BYTES
                &&& self.manager.spec_contents().contains_key(b)
                &&& self.manager.spec_contents()[b].len() == n
            }
        &&& forall|i: int| 0 <= i < self.kernels@.len() ==> (#[trigger] self.kernels@[i]).0 != 0
    }

    pub fn new(manager: ComputePipelineManager) -> (r: Self)
        requires
            manager.wf(),
        ensures
            r.wf(),
            r.spec_manager() == manager,
            r.spec_resources().len() == 0,
            r.spec_kernels().len() == 0,
            r.spec_resource_bytes() == 0,
            r.spec_completed() == 0,
    {
        SgpuComputeSession {
            manager,
            executor: CommandExecutor::new(),
            textures: TextureManager::new(),
            resources: Vec::new(),
            kernels: Vec::new(),
            resource_bytes: 0,
            completed: 0,
        }
    }

    /// The registered resource with guest handle `handle`.
    fn resource(&self, handle: u64) -> (r: Result<(u64, u64, u64), SgpuComputeError>)
        requires
            self.wf(),
        ensures
            match spec_find_resource(self.spec_resources(), handle) {
                Some(res) => r == Ok::<(u64, u64, u64), SgpuComputeError>(res),
                None => r matches Err(SgpuComputeError::ResourceNotFound(h)) && h == handle,
            },
    {
        let mut i: usize = 0;
        while i < self.resources.len()
            invariant
                self.wf(),
                i <= self.resources@.len(),
                forall|j: int| 0 <= j < i ==> (#[trigger] self.resources@[j]).0 != handle,
            decreases self.resources@.len() - i,
        {
            if self.resources[i].0 == handle {
                proof {
                    lemma_unique_handle(self.resources@, i as int, handle);
                }
                return Ok(self.resources[i]);
            }
            i = i + 1;
        }
        Err(SgpuComputeError::ResourceNotFound(handle))
    }

    /// Whether some registered resource is backed by `buffer`.
    fn buffer_registered(&self, buffer: u64) -> (r: Option<(u64, u64, u64)>)
        requires
            self.wf(),
        ensures
            r == spec_find_by_buffer(self.spec_resources(), buffer),
    {
        let mut i: usize = 0;
        while i < self.resources.len()
            invariant
                self.wf(),
                i <= self.resources@.len(),
                forall|j: int| 0 <= j < i ==> (#[trigger] self.resources@[j]).1 != buffer,
            decreases self.resources@.len() - i,
        {
            if self.resources[i].1 == buffer {
                proof {
                    lemma_unique_buffer(self.resources@, i as int, buffer);
                }
                return Some(self.resources[i]);
            }
            i = i + 1;
        }
        None
    }

    /// The pipeline registered for guest kernel `guest_id`, with its index.
    fn kernel(&self, guest_id: u32) -> (r: Option<(usize, u32)>)
        requires
            self.wf(),
        ensures
            match spec_find_kernel(self.spec_kernels(), guest_id) {
                Some(pid) => r matches Some((i, p)) && p == pid && i < self.spec_kernels().len()
                    && self.spec_kernels()[i as int] == (guest_id, pid),
                None => r is None,
            },
    {
        let mut i: usize = 0;
        while i < self.kernels.len()
            invariant
                self.wf(),
                i <= self.kernels@.len(),
                forall|j: int| 0 <= j < i ==> (#[trigger] self.kernels@[j]).0 != guest_id,
            decreases self.kernels@.len() - i,
        {
            if self.kernels[i].0 == guest_id {
                proof {
                    lemma_unique_kernel(self.kernels@, i as int, guest_id);
                }
                return Some((i, self.kernels[i].1));
            }
            i = i + 1;
        }
        None
    }

    /// Maps guest handle `guest_handle` onto the manager's storage buffer
    /// `buffer`, whose present size is registered.
    pub fn register_resource(&mut self, guest_handle: u64, buffer: u64) -> (r: Result<(), SgpuComputeError>)
        requires
            old(self).wf(),
        ensures
            final(self).wf(),
            r is Err ==> *final(self) == *old(self),
            guest_handle == 0 || buffer == 0 ==> (r matches Err(SgpuComputeError::ZeroHandle)),
            guest_handle != 0 && buffer != 0 && (spec_find_resource(old(self).spec_resources(), guest_handle) is Some
                || spec_find_by_buffer(old(self).spec_resources(), buffer) is Some) ==> (r matches Err(
                SgpuComputeError::DuplicateResource,
            )),
            guest_handle != 0 && buffer != 0 && spec_find_resource(old(self).spec_resources(), guest_handle) is None
                && spec_find_by_buffer(old(self).spec_resources(), buffer) is None
                && !old(self).spec_manager().spec_contents().contains_key(buffer) ==> (r matches Err(
                SgpuComputeError::ResourceNotFound(h),
            ) && h == guest_handle),
            r is Ok <==> {
                &&& guest_handle != 0 && buffer != 0
                &&& spec_find_resource(old(self).spec_resources(), guest_handle) is None
                &&& spec_find_by_buffer(old(self).spec_resources(), buffer) is None
                &&& old(self).spec_manager().spec_contents().contains_key(buffer)
                &&& 0 < old(self).spec_manager().spec_contents()[buffer].len() <= SGPU_MAX_RESOURCE_BYTES
                &&& old(self).spec_resource_bytes() + old(self).spec_manager().spec_contents()[buffer].len()
                    <= SGPU_MAX_TOTAL_RESOURCE_BYTES
                &&& old(self).spec_resources().len() < SGPU_MAX_RESOURCES
            },
            r is Err && guest_handle != 0 && buffer != 0 && spec_find_resource(old(self).spec_resources(), guest_handle) is None
                && spec_find_by_buffer(old(self).spec_resources(), buffer) is None
                && old(self).spec_manager().spec_contents().contains_key(buffer) ==> (r matches Err(
                SgpuComputeError::Limit,
            )),
            r is Ok ==> {
                let size = old(self).spec_manager().spec_contents()[buffer].len();
                &&& final(self).spec_resources() == old(self).spec_resources().push(
                    (guest_handle, buffer, size as u64),
                )
                &&& final(self).spec_resource_bytes() == old(self).spec_resource_bytes() + size
                &&& final(self).spec_kernels() == old(self).spec_kernels()
                &&& final(self).spec_manager() == old(self).spec_manager()
                &&& final(self).spec_completed() == old(self).spec_completed()
            },
    {
        if guest_handle == 0 || buffer == 0 {
            return Err(SgpuComputeError::ZeroHandle);
        }
        let known = match self.resource(guest_handle) {
            Ok(_) => true,
            Err(_) => false,
        };
        if known || self.buffer_registered(buffer).is_some() {
            return Err(SgpuComputeError::DuplicateResource);
        }
        let size = match self.manager.storage_buffer_size(buffer) {
            Some(n) => n as u64,
            None => {
                return Err(SgpuComputeError::ResourceNotFound(guest_handle));
            },
        };
        let total = match self.resource_bytes.checked_add(size) {
            Some(t) => t,
            None => {
                return Err(SgpuComputeError::Limit);
            },
        };
        if size == 0 || size > SGPU_MAX_RESOURCE_BYTES || total > SGPU_MAX_TOTAL_RESOURCE_BYTES
            || self.resources.len() >= SGPU_MAX_RESOURCES {
            return Err(SgpuComputeError::Limit);
        }
        let ghost before = self.resources@;
        self.resources.push((guest_handle, buffer, size));
        self.resource_bytes = total;
        proof {
            assert(self.resources@.drop_last() =~= before);
            assert forall|i: int, j: int|
                0 <= i < j < self.resources@.len() implies (#[trigger] self.resources@[i]).0 != (
                #[trigger] self.resources@[j]).0 && self.resources@[i].1 != self.resources@[j].1 by {
                if j == before.len() {
                    assert(before[i] == self.resources@[i]);
                    if before[i].0 == guest_handle {
                        assert(exists|k: int| 0 <= k < before.len() && (#[trigger] before[k]).0 == guest_handle);
                    }
                    if before[i].1 == buffer {
                        assert(exists|k: int| 0 <= k < before.len() && (#[trigger] before[k]).1 == buffer);
                    }
                } else {
                    assert(before[i] == self.resources@[i] && before[j] == self.resources@[j]);
                }
            }
            assert forall|i: int| 0 <= i < self.resources@.len() implies {
                let (h, b, n) = #[trigger] self.resources@[i];
                &&& h != 0
                &&& b != 0
                &&& 0 < n <= SGPU_MAX_RESOURCE_BYTES
                &&& self.manager.spec_contents().contains_key(b)
                &&& self.manager.spec_contents()[b].len() == n
            } by {
                if i < before.len() {
                    assert(before[i] == self.resources@[i]);
                }
            }
        }
        Ok(())
    }

    /// Some registered kernel's pipeline binds `buffer`.
    pub open spec fn spec_buffer_in_use(&self, buffer: u64) -> bool {
        exists|k: int, j: int|
            0 <= k < self.spec_kernels().len() && self.spec_manager().spec_pipelines().contains_key(
                (#[trigger] self.spec_kernels()[k]).1,
            ) && 0 <= j < self.spec_manager().spec_pipelines()[self.spec_kernels()[k].1].descriptor.buffer_bindings@.len()
                && (#[trigger] self.spec_manager().spec_pipelines()[self.spec_kernels()[k].1].descriptor.buffer_bindings@[j]).buffer_id
                == buffer
    }

    fn buffer_in_use(&self, buffer: u64) -> (r: bool)
        requires
            self.wf(),
        ensures
            r == self.spec_buffer_in_use(buffer),
    {
        let mut k: usize = 0;
        while k < self.kernels.len()
            invariant
                self.wf(),
                k <= self.kernels@.len(),
                forall|a: int, j: int|
                    0 <= a < k && self.spec_manager().spec_pipelines().contains_key(
                        (#[trigger] self.spec_kernels()[a]).1,
                    ) && 0 <= j < self.spec_manager().spec_pipelines()[self.spec_kernels()[a].1].descriptor.buffer_bindings@.len()
                        ==> (#[trigger] self.spec_manager().spec_pipelines()[self.spec_kernels()[a].1].descriptor.buffer_bindings@[j]).buffer_id
                        != buffer,
            decreases self.kernels@.len() - k,
        {
            match self.manager.get_pipeline(self.kernels[k].1) {
                Some(p) => {
                    let bs = &p.descriptor.buffer_bindings;
                    let mut j: usize = 0;
                    while j < bs.len()
                        invariant
                            self.wf(),
                            k < self.kernels@.len(),
                            self.spec_manager().spec_pipelines().contains_key(self.spec_kernels()[k as int].1),
                            bs@ == self.spec_manager().spec_pipelines()[self.spec_kernels()[k as int].1].descriptor.buffer_bindings@,
                            j <= bs@.len(),
                            forall|m: int| 0 <= m < j ==> (#[trigger] bs@[m]).buffer_id != buffer,
                        decreases bs@.len() - j,
                    {
                        if bs[j].buffer_id == buffer {
                            return true;
                        }
                        j = j + 1;
                    }
                },
                None => {},
            }
            k = k + 1;
        }
        false
    }

    /// Removes the mapping of guest handle `guest_handle`, unless a
    /// registered kernel's pipeline binds its buffer.
    pub fn unregister_resource(&mut self, guest_handle: u64) -> (r: Result<(), SgpuComputeError>)
        requires
            old(self).wf(),
        ensures
            final(self).wf(),
            r is Err ==> *final(self) == *old(self),
            spec_find_resource(old(self).spec_resources(), guest_handle) is None ==> (r matches Err(
                SgpuComputeError::ResourceNotFound(h),
            ) && h == guest_handle),
            spec_find_resource(old(self).spec_resources(), guest_handle) matches Some(res)
                ==> if old(self).spec_buffer_in_use(res.1) {
                r matches Err(SgpuComputeError::ResourceInUse(h)) && h == guest_handle
            } else {
                &&& r is Ok
                &&& exists|i: int|
                    0 <= i < old(self).spec_resources().len() && old(self).spec_resources()[i] == res
                        && final(self).spec_resources() == old(self).spec_resources().remove(i)
                &&& final(self).spec_resource_bytes() == old(self).spec_resource_bytes() - res.2
                &&& final(self).spec_kernels() == old(self).spec_kernels()
                &&& final(self).spec_manager() == old(self).spec_manager()
                &&& final(self).spec_completed() == old(self).spec_completed()
            },
            r is Ok ==> spec_find_resource(final(self).spec_resources(), guest_handle) is None,
    {
        let mut i: usize = 0;
        while i < self.resources.len()
            invariant
                self.wf(),
                *self == *old(self),
                i <= self.resources@.len(),
                forall|j: int| 0 <= j < i ==> (#[trigger] self.resources@[j]).0 != guest_handle,
            decreases self.resources@.len() - i,
        {
            if self.resources[i].0 == guest_handle {
                proof {
                    lemma_unique_handle(self.resources@, i as int, guest_handle);
                }
                let res = self.resources[i];
                if self.buffer_in_use(res.1) {
                    return Err(SgpuComputeError::ResourceInUse(guest_handle));
                }
                let ghost before = self.resources@;
                proof {
                    lemma_total_remove(before, i as int);
                    lemma_total_bounds(before);
                    assert(before[i as int] == res);
                }
                self.resources.remove(i);
                self.resource_bytes = self.resource_bytes - res.2;
                proof {
                    assert forall|a: int, b: int|
                        0 <= a < b < self.resources@.len() implies (#[trigger] self.resources@[a]).0 != (
                        #[trigger] self.resources@[b]).0 && self.resources@[a].1 != self.resources@[b].1 by {
                        let a2 = if a < i { a } else { a + 1 };
                        let b2 = if b < i { b } else { b + 1 };
                        assert(self.resources@[a] == before[a2] && self.resources@[b] == before[b2]);
                    }
                    assert forall|a: int| 0 <= a < self.resources@.len() implies {
                        let (h, bb, n) = #[trigger] self.resources@[a];
                        &&& h != 0
                        &&& bb != 0
                        &&& 0 < n <= SGPU_MAX_RESOURCE_BYTES
                        &&& self.manager.spec_contents().contains_key(bb)
                        &&& self.manager.spec_contents()[bb].len() == n
                    } by {
                        let a2 = if a < i { a } else { a + 1 };
                        assert(self.resources@[a] == before[a2]);
                    }
                    assert forall|a: int| 0 <= a < self.resources@.len() implies (
                    #[trigger] self.resources@[a]).0 != guest_handle by {
                        let a2 = if a < i { a } else { a + 1 };
                        assert(self.resources@[a] == before[a2]);
                        if a2 < i {
                            assert(before[a2].0 != before[i as int].0);
                        } else {
                            assert(before[i as int].0 != before[a2].0);
                        }
                    }
                }
                return Ok(());
            }
            i = i + 1;
        }
        Err(SgpuComputeError::ResourceNotFound(guest_handle))
    }

    /// The bindings before `i` are backed by registered resources holding
    /// their ranges, and the one at `i` is not.
    pub open spec fn spec_first_unbacked(&self, bs: Seq<crate::compute::BufferBinding>, i: int) -> bool {
        &&& 0 <= i < bs.len()
        &&& !self.spec_binding_backed(bs[i])
        &&& forall|j: int| 0 <= j < i ==> self.spec_binding_backed(#[trigger] bs[j])
    }

    /// A registered resource backs the binding's buffer and holds its range.
    pub open spec fn spec_binding_backed(&self, b: crate::compute::BufferBinding) -> bool {
        spec_find_by_buffer(self.spec_resources(), b.buffer_id) matches Some(res) && spec_range_ok(
            res.2,
            b.offset,
            b.size,
        )
    }

    /// Maps guest kernel `guest_id` onto pipeline `pipeline_id`, whose shape
    /// must pass the dispatch rules for one workgroup and whose bindings must
    /// all be backed by registered resources.
    pub fn register_kernel(&mut self, guest_id: u32, pipeline_id: u32) -> (r: Result<(), SgpuComputeError>)
        requires
            old(self).wf(),
        ensures
            final(self).wf(),
            r is Err ==> *final(self) == *old(self),
            r is Ok ==> final(self).spec_kernels() == old(self).spec_kernels().push((guest_id, pipeline_id))
                && final(self).spec_resources() == old(self).spec_resources()
                && final(self).spec_resource_bytes() == old(self).spec_resource_bytes()
                && final(self).spec_manager() == old(self).spec_manager()
                && final(self).spec_completed() == old(self).spec_completed(),
            ({
                let pipes = old(self).spec_manager().spec_pipelines();
                let d = pipes[pipeline_id].descriptor;
                let one = seq![1u32, 1u32, 1u32];
                if guest_id == 0 {
                    r matches Err(SgpuComputeError::ZeroHandle)
                } else if spec_find_kernel(old(self).spec_kernels(), guest_id) is Some {
                    r matches Err(SgpuComputeError::DuplicateKernel(g)) && g == guest_id
                } else if old(self).spec_kernels().len() >= SGPU_MAX_KERNELS {
                    r matches Err(SgpuComputeError::Limit)
                } else if !pipes.contains_key(pipeline_id) {
                    r matches Err(SgpuComputeError::Compute(ComputeError::PipelineNotFound(p)))
                        && p == pipeline_id
                } else if spec_dispatch_fault(d.workgroup_size@, d.buffer_bindings@, one) is Some {
                    r matches Err(SgpuComputeError::Compute(e)) && spec_fault_error(
                        spec_dispatch_fault(d.workgroup_size@, d.buffer_bindings@, one)->0,
                        one,
                        e,
                    )
                } else if exists|i: int| old(self).spec_first_unbacked(d.buffer_bindings@, i) {
                    exists|i: int|
                        old(self).spec_first_unbacked(d.buffer_bindings@, i) && if spec_find_by_buffer(
                            old(self).spec_resources(),
                            d.buffer_bindings@[i].buffer_id,
                        ) is None {
                            r matches Err(SgpuComputeError::UnregisteredBinding(b)) && b
                                == d.buffer_bindings@[i].buffer_id
                        } else {
                            r matches Err(SgpuComputeError::Range)
                        }
                } else {
                    r is Ok
                }
            }),
    {
        if guest_id == 0 {
            return Err(SgpuComputeError::ZeroHandle);
        }
        if self.kernel(guest_id).is_some() {
            return Err(SgpuComputeError::DuplicateKernel(guest_id));
        }
        if self.kernels.len() >= SGPU_MAX_KERNELS {
            return Err(SgpuComputeError::Limit);
        }
        let pipeline = match self.manager.get_pipeline(pipeline_id) {
            Some(p) => p,
            None => {
                return Err(SgpuComputeError::Compute(ComputeError::PipelineNotFound(pipeline_id)));
            },
        };
        let one: [u32; 3] = [1, 1, 1];
        assert(one@ =~= seq![1u32, 1u32, 1u32]);
        match validate_dispatch(&pipeline.descriptor, one) {
            Ok(()) => {},
            Err(e) => {
                return Err(SgpuComputeError::Compute(e));
            },
        }
        let bs = &pipeline.descriptor.buffer_bindings;
        let mut i: usize = 0;
        while i < bs.len()
            invariant
                self.wf(),
                *self == *old(self),
                bs@ == old(self).spec_manager().spec_pipelines()[pipeline_id].descriptor.buffer_bindings@,
                i <= bs@.len(),
                forall|j: int| 0 <= j < i ==> self.spec_binding_backed(#[trigger] bs@[j]),
                guest_id != 0,
                spec_find_kernel(old(self).spec_kernels(), guest_id) is None,
                old(self).spec_kernels().len() < SGPU_MAX_KERNELS,
                old(self).spec_manager().spec_pipelines().contains_key(pipeline_id),
                spec_dispatch_fault(
                    old(self).spec_manager().spec_pipelines()[pipeline_id].descriptor.workgroup_size@,
                    bs@,
                    seq![1u32, 1u32, 1u32],
                ) is None,
            decreases bs@.len() - i,
        {
            let b = bs[i];
            let res = match self.buffer_registered(b.buffer_id) {
                Some(res) => res,
                None => {
                    assert(self.spec_first_unbacked(bs@, i as int));
                    return Err(SgpuComputeError::UnregisteredBinding(b.buffer_id));
                },
            };
            match checked_range(res.2, b.offset, b.size) {
                Ok(_) => {},
                Err(e) => {
                    assert(self.spec_first_unbacked(bs@, i as int));
                    return Err(e);
                },
            }
            i = i + 1;
        }
        proof {
            assert forall|k: int| !old(self).spec_first_unbacked(bs@, k) by {
                if 0 <= k < bs@.len() {
                    assert(old(self).spec_binding_backed(bs@[k]));
                }
            }
        }
        let ghost before = self.kernels@;
        self.kernels.push((guest_id, pipeline_id));
        proof {
            assert forall|a: int, b: int|
                0 <= a < b < self.kernels@.len() implies (#[trigger] self.kernels@[a]).0 != (
                #[trigger] self.kernels@[b]).0 by {
                if b == before.len() {
                    assert(before[a] == self.kernels@[a]);
                    if before[a].0 == guest_id {
                        assert(exists|k: int| 0 <= k < before.len() && (#[trigger] before[k]).0 == guest_id);
                    }
                } else {
                    assert(before[a] == self.kernels@[a] && before[b] == self.kernels@[b]);
                }
            }
            assert forall|a: int| 0 <= a < self.kernels@.len() implies (#[trigger] self.kernels@[a]).0 != 0 by {
                if a < before.len() {
                    assert(before[a] == self.kernels@[a]);
                }
            }
        }
        Ok(())
    }

    /// Removes the mapping of guest kernel `guest_id`.
    pub fn unregister_kernel(&mut self, guest_id: u32) -> (r: Result<(), SgpuComputeError>)
        requires
            old(self).wf(),
        ensures
            final(self).wf(),
            r is Err ==> *final(self) == *old(self),
            r is Ok <==> spec_find_kernel(old(self).spec_kernels(), guest_id) is Some,
            r matches Err(e) ==> (e matches SgpuComputeError::KernelNotFound(g) && g == guest_id),
            r is Ok ==> (exists|i: int|
                0 <= i < old(self).spec_kernels().len() && old(self).spec_kernels()[i].0 == guest_id
                    && final(self).spec_kernels() == old(self).spec_kernels().remove(i))
                && final(self).spec_resources() == old(self).spec_resources()
                && final(self).spec_resource_bytes() == old(self).spec_resource_bytes()
                && final(self).spec_manager() == old(self).spec_manager()
                && final(self).spec_completed() == old(self).spec_completed(),
    {
        match self.kernel(guest_id) {
            Some((i, _)) => {
                let ghost before = self.kernels@;
                self.kernels.remove(i);
                proof {
                    assert forall|a: int, b: int|
                        0 <= a < b < self.kernels@.len() implies (#[trigger] self.kernels@[a]).0 != (
                        #[trigger] self.kernels@[b]).0 by {
                        let a2 = if a < i { a } else { a + 1 };
                        let b2 = if b < i { b } else { b + 1 };
                        assert(self.kernels@[a] == before[a2] && self.kernels@[b] == before[b2]);
                    }
                    assert forall|a: int| 0 <= a < self.kernels@.len() implies (#[trigger] self.kernels@[a]).0 != 0 by {
                        let a2 = if a < i { a } else { a + 1 };
                        assert(self.kernels@[a] == before[a2]);
                    }
                }
                Ok(())
            },
            None => Err(SgpuComputeError::KernelNotFound(guest_id)),
        }
    }

    /// Writes `data` into resource `handle` from byte `offset` on.
    pub fn write_resource(&mut self, handle: u64, offset: u64, data: &[u8]) -> (r: Result<(), SgpuComputeError>)
        requires
            old(self).wf(),
        ensures
            final(self).wf(),
            r is Err ==> *final(self) == *old(self),
            spec_find_resource(old(self).spec_resources(), handle) is None ==> (r matches Err(
                SgpuComputeError::ResourceNotFound(h),
            ) && h == handle),
            spec_find_resource(old(self).spec_resources(), handle) matches Some(res) ==> if spec_range_ok(
                res.2,
                offset,
                data@.len() as u64,
            ) {
                &&& r is Ok
                &&& final(self).spec_manager().spec_contents() == old(self).spec_manager().spec_contents().insert(
                    res.1,
                    spec_overwrite(old(self).spec_manager().spec_contents()[res.1], offset as int, data@),
                )
                &&& final(self).spec_manager().spec_pipelines() == old(self).spec_manager().spec_pipelines()
                &&& final(self).spec_resources() == old(self).spec_resources()
                &&& final(self).spec_kernels() == old(self).spec_kernels()
                &&& final(self).spec_resource_bytes() == old(self).spec_resource_bytes()
                &&& final(self).spec_completed() == old(self).spec_completed()
            } else {
                r matches Err(SgpuComputeError::Range)
            },
    {
        let res = self.resource(handle)?;
        if data.len() as u64 > u64::MAX {
            return Err(SgpuComputeError::Range);
        }
        let (start, _) = checked_range(res.2, offset, data.len() as u64)?;
        proof {
            let k = choose|k: int| 0 <= k < self.resources@.len() && (#[trigger] self.resources@[k]).0 == handle;
            assert(self.resources@[k] == res);
        }
        match self.manager.write_storage_buffer(res.1, start, data) {
            Ok(()) => {},
            Err(e) => {
                return Err(SgpuComputeError::Compute(e));
            },
        }
        proof {
            assert forall|i: int| 0 <= i < self.resources@.len() implies {
                let (h, b, n) = #[trigger] self.resources@[i];
                &&& h != 0
                &&& b != 0
                &&& 0 < n <= SGPU_MAX_RESOURCE_BYTES
                &&& self.manager.spec_contents().contains_key(b)
                &&& self.manager.spec_contents()[b].len() == n
            } by {
                let (h, b, n) = self.resources@[i];
                assert(old(self).manager.spec_contents().contains_key(b));
            }
        }
        Ok(())
    }

    /// Reads `length` bytes of resource `handle` from byte `offset` on.
    pub fn read_resource(&self, handle: u64, offset: u64, length: u64) -> (r: Result<Vec<u8>, SgpuComputeError>)
        requires
            self.wf(),
        ensures
            spec_find_resource(self.spec_resources(), handle) is None ==> (r matches Err(
                SgpuComputeError::ResourceNotFound(h),
            ) && h == handle),
            spec_find_resource(self.spec_resources(), handle) matches Some(res) ==> if spec_range_ok(
                res.2,
                offset,
                length,
            ) {
                r matches Ok(v) && v@ == self.spec_manager().spec_contents()[res.1].subrange(
                    offset as int,
                    offset + length,
                )
            } else {
                r matches Err(SgpuComputeError::Range)
            },
    {
        let res = self.resource(handle)?;
        let (start, len) = checked_range(res.2, offset, length)?;
        proof {
            let k = choose|k: int| 0 <= k < self.resources@.len() && (#[trigger] self.resources@[k]).0 == handle;
            assert(self.resources@[k] == res);
        }
        match self.manager.read_storage_buffer(res.1, start, len) {
            Ok(v) => Ok(v),
            Err(e) => Err(SgpuComputeError::Compute(e)),
        }
    }

    /// Host-side observation of the manager; registrations cannot be
    /// invalidated through it.
    pub fn manager(&self) -> (r: &ComputePipelineManager)
        ensures
            *r == self.spec_manager(),
    {
        &self.manager
    }

    /// Ends the session and returns the manager.
    pub fn into_manager(self) -> (r: ComputePipelineManager)
        ensures
            r == self.spec_manager(),
    {
        self.manager
    }

    pub fn completed_command_count(&self) -> (r: u64)
        ensures
            r == self.spec_completed(),
    {
        self.completed
    }

    pub fn resource_count(&self) -> (r: usize)
        ensures
            r == self.spec_resources().len(),
    {
        self.resources.len()
    }

    pub fn kernel_count(&self) -> (r: usize)
        ensures
            r == self.spec_kernels().len(),
    {
        self.kernels.len()
    }

    /// The command passes the whole-list preflight: copies name registered
    /// resources holding the copied bytes; dispatches name a registered
    /// kernel whose pipeline exists, whose workgroup size is the block and
    /// whose shape passes the dispatch rules for the grid.
    pub open spec fn spec_command_valid(&self, cmd: SgpuCommand) -> bool {
        let rs = self.spec_resources();
        let pipes = self.spec_manager().spec_pipelines();
        match cmd {
            SgpuCommand::CopyBuffer { src, dst, size } => {
                &&& spec_find_resource(rs, src) is Some
                &&& spec_range_ok(spec_size_of(rs, src), 0, size)
                &&& spec_find_resource(rs, dst) is Some
                &&& spec_range_ok(spec_size_of(rs, dst), 0, size)
            },
            SgpuCommand::ComputeDispatch { kernel_id, grid, block } => {
                let pid = spec_find_kernel(self.spec_kernels(), kernel_id)->0;
                &&& spec_find_kernel(self.spec_kernels(), kernel_id) is Some
                &&& pipes.contains_key(pid)
                &&& pipes[pid].descriptor.workgroup_size@ == seq![block.0, block.1, block.2]
                &&& spec_dispatch_fault(
                    pipes[pid].descriptor.workgroup_size@,
                    pipes[pid].descriptor.buffer_bindings@,
                    seq![grid.0, grid.1, grid.2],
                ) is None
            },
            _ => false,
        }
    }

    /// `e` is the error of the first preflight check `cmd` fails.
    pub open spec fn spec_command_error(&self, cmd: SgpuCommand, e: SgpuComputeError) -> bool {
        let rs = self.spec_resources();
        let pipes = self.spec_manager().spec_pipelines();
        match cmd {
            SgpuCommand::CopyBuffer { src, dst, size } => {
                if spec_find_resource(rs, src) is None {
                    e matches SgpuComputeError::ResourceNotFound(h) && h == src
                } else if !spec_range_ok(spec_size_of(rs, src), 0, size) {
                    e is Range
                } else if spec_find_resource(rs, dst) is None {
                    e matches SgpuComputeError::ResourceNotFound(h) && h == dst
                } else {
                    e is Range
                }
            },
            SgpuCommand::ComputeDispatch { kernel_id, grid, block } => {
                let pid = spec_find_kernel(self.spec_kernels(), kernel_id)->0;
                let d = pipes[pid].descriptor;
                if spec_find_kernel(self.spec_kernels(), kernel_id) is None {
                    e matches SgpuComputeError::KernelNotFound(k) && k == kernel_id
                } else if !pipes.contains_key(pid) {
                    e matches SgpuComputeError::Compute(ComputeError::PipelineNotFound(p)) && p == pid
                } else if d.workgroup_size@ != seq![block.0, block.1, block.2] {
                    e is BlockMismatch
                } else {
                    e matches SgpuComputeError::Compute(ce) && spec_fault_error(
                        spec_dispatch_fault(
                            d.workgroup_size@,
                            d.buffer_bindings@,
                            seq![grid.0, grid.1, grid.2],
                        )->0,
                        seq![grid.0, grid.1, grid.2],
                        ce,
                    )
                }
            },
            _ => e matches SgpuComputeError::UnsupportedCommand(t) && t == cmd.spec_tag(),
        }
    }

    /// Checks one command of a list before anything runs.
    fn validate_command(&self, cmd: &SgpuCommand) -> (r: Result<(), SgpuComputeError>)
        requires
            self.wf(),
        ensures
            r is Ok <==> self.spec_command_valid(*cmd),
            r matches Err(e) ==> self.spec_command_error(*cmd, e),
    {
        match cmd {
            SgpuCommand::CopyBuffer { src, dst, size } => {
                let s = self.resource(*src)?;
                checked_range(s.2, 0, *size)?;
                let d = self.resource(*dst)?;
                checked_range(d.2, 0, *size)?;
                Ok(())
            },
            SgpuCommand::ComputeDispatch { kernel_id, grid, block } => {
                let pipeline_id = match self.kernel(*kernel_id) {
                    Some((_, p)) => p,
                    None => {
                        return Err(SgpuComputeError::KernelNotFound(*kernel_id));
                    },
                };
                let pipeline = match self.manager.get_pipeline(pipeline_id) {
                    Some(p) => p,
                    None => {
                        return Err(SgpuComputeError::Compute(ComputeError::PipelineNotFound(pipeline_id)));
                    },
                };
                let ws = pipeline.descriptor.workgroup_size;
                if ws[0] != block.0 || ws[1] != block.1 || ws[2] != block.2 {
                    proof {
                        if ws@ == seq![block.0, block.1, block.2] {
                            assert(ws@[0] == block.0 && ws@[1] == block.1 && ws@[2] == block.2);
                        }
                    }
                    return Err(SgpuComputeError::BlockMismatch);
                }
                assert(ws@ =~= seq![block.0, block.1, block.2]);
                let groups: [u32; 3] = [grid.0, grid.1, grid.2];
                assert(groups@ =~= seq![grid.0, grid.1, grid.2]);
                match validate_dispatch(&pipeline.descriptor, groups) {
                    Ok(()) => Ok(()),
                    Err(e) => Err(SgpuComputeError::Compute(e)),
                }
            },
            _ => Err(SgpuComputeError::UnsupportedCommand(cmd.tag())),
        }
    }

    /// Runs one command that passed the preflight. A copy moves the first
    /// `size` bytes of its source over the start of its destination; a
    /// dispatch goes through the command executor and, with no executing
    /// backend here, fails with the error the manager gives for it.
    fn execute_command(&mut self, cmd: &SgpuCommand) -> (r: Result<(), SgpuComputeError>)
        requires
            old(self).wf(),
            old(self).spec_command_valid(*cmd),
        ensures
            final(self).wf(),
            final(self).spec_resources() == old(self).spec_resources(),
            final(self).spec_kernels() == old(self).spec_kernels(),
            final(self).spec_resource_bytes() == old(self).spec_resource_bytes(),
            final(self).spec_completed() == old(self).spec_completed(),
            final(self).spec_manager().spec_pipelines() == old(self).spec_manager().spec_pipelines(),
            match *cmd {
                SgpuCommand::CopyBuffer { .. } => r is Ok && final(self).spec_manager().spec_contents()
                    == spec_apply_copy(old(self).spec_manager().spec_contents(), old(self).spec_resources(), *cmd),
                SgpuCommand::ComputeDispatch { kernel_id, grid, .. } => final(self).spec_manager() == old(self).spec_manager() && (r matches Err(
                    SgpuComputeError::Executor(ExecutorError::Compute(ce)),
                ) && spec_dispatch_error(
                    Some(old(self).spec_manager()),
                    spec_find_kernel(old(self).spec_kernels(), kernel_id)->0,
                    DispatchWorkgroup { x: grid.0, y: grid.1, z: grid.2 },
                    ce,
                )),
                _ => false,
            },
    {
        match cmd {
            SgpuCommand::CopyBuffer { src, dst, size } => {
                proof {
                    let rs = self.spec_resources();
                    assert(spec_find_resource(rs, *src) == Some(spec_find_resource(rs, *src)->0));
                    assert(spec_find_resource(rs, *dst) == Some(spec_find_resource(rs, *dst)->0));
                }
                let data = match self.read_resource(*src, 0, *size) {
                    Ok(d) => d,
                    Err(e) => {
                        return Err(e);
                    },
                };
                match self.write_resource(*dst, 0, data.as_slice()) {
                    Ok(()) => {},
                    Err(e) => {
                        return Err(e);
                    },
                }
                proof {
                    assert(data@.len() == *size);
                    assert(self.spec_manager().spec_contents() =~= spec_apply_copy(
                        old(self).spec_manager().spec_contents(),
                        old(self).spec_resources(),
                        *cmd,
                    ));
                    assert(self.spec_resources() == old(self).spec_resources());
                    assert(self.wf());
                    assert(self.spec_manager().spec_pipelines() == old(self).spec_manager().spec_pipelines());
                }
                Ok(())
            },
            SgpuCommand::ComputeDispatch { kernel_id, grid, .. } => {
                let pipeline_id = match self.kernel(*kernel_id) {
                    Some((_, p)) => p,
                    None => {
                        return Err(SgpuComputeError::KernelNotFound(*kernel_id));
                    },
                };
                let mut commands: Vec<GpuCommand> = Vec::new();
                commands.push(GpuCommand::DispatchCompute { pipeline_id, x: grid.0, y: grid.1, z: grid.2 });
                let recorded = RecordedCommandBuffer { commands };
                assert(recorded.commands@ =~= seq![
                    GpuCommand::DispatchCompute { pipeline_id, x: grid.0, y: grid.1, z: grid.2 },
                ]);
                let mut frames: Vec<LinearFramebuffer> = Vec::new();
                let ghost e0 = self.executor;
                let ghost t0 = self.textures.spec_textures();
                let ghost m0 = self.manager;
                let ghost tm0 = self.textures;
                let result = self.executor.execute_with_compute(
                    &recorded,
                    frames.as_mut_slice(),
                    &mut self.textures,
                    &mut self.manager,
                );
                proof {
                    crate::command_executor::lemma_single_dispatch(
                        e0,
                        t0,
                        Seq::empty(),
                        pipeline_id,
                        grid.0,
                        grid.1,
                        grid.2,
                        Some(m0),
                        self.executor,
                        self.textures.spec_textures(),
                        frames@,
                        result,
                    );
                    crate::texture::lemma_views_keep_wf(&tm0, &self.textures);
                }
                match result {
                    Ok(()) => Ok(()),
                    Err(e) => Err(SgpuComputeError::Executor(e)),
                }
            },
            _ => Err(SgpuComputeError::UnsupportedCommand(cmd.tag())),
        }
    }

    /// The commands before `i` pass the preflight and the one at `i` does not.
    pub open spec fn spec_first_invalid(&self, cmds: Seq<SgpuCommand>, i: int) -> bool {
        &&& 0 <= i < cmds.len()
        &&& !self.spec_command_valid(cmds[i])
        &&& forall|j: int| 0 <= j < i ==> self.spec_command_valid(#[trigger] cmds[j])
    }

    /// What a submission of `cmds` to `self` answers, leaving `after`: a list
    /// over the command cap, or one that would overflow the completion count,
    /// is refused; otherwise the first command failing the preflight is
    /// reported and nothing runs; otherwise the copies before the first
    /// dispatch run and the dispatch fails with its compute error, or, with
    /// no dispatch, every copy runs and the list's length is answered.
    pub open spec fn spec_submit(&self, cmds: Seq<SgpuCommand>, after: &Self, r: Result<usize, SgpuSubmissionError>) -> bool {
        let n = cmds.len();
        let c0 = self.spec_manager().spec_contents();
        let rs = self.spec_resources();
        if n > SGPU_MAX_COMMANDS || self.spec_completed() + n > u64::MAX {
            &&& r matches Err(se) && se.command_index is None && se.completed == 0 && se.error is Limit
            &&& after.spec_manager().spec_contents() == c0
            &&& after.spec_completed() == self.spec_completed()
        } else if exists|i: int| self.spec_first_invalid(cmds, i) {
            &&& exists|i: int| #[trigger] self.spec_first_invalid(cmds, i) && (r matches Err(se)
                && se.command_index == Some(i as usize) && se.completed == 0 && self.spec_command_error(
                cmds[i],
                se.error,
            ))
            &&& after.spec_manager().spec_contents() == c0
            &&& after.spec_completed() == self.spec_completed()
        } else if exists|k: int| spec_first_dispatch(cmds, k) {
            exists|k: int| #[trigger] spec_first_dispatch(cmds, k) && {
                &&& after.spec_manager().spec_contents() == spec_copies(c0, rs, cmds, k)
                &&& after.spec_completed() == self.spec_completed() + k
                &&& r matches Err(se) && se.command_index == Some(k as usize) && se.completed == k && (
                se.error matches SgpuComputeError::Executor(ExecutorError::Compute(ce))
                    && spec_dispatch_error(
                    Some(after.spec_manager()),
                    spec_find_kernel(self.spec_kernels(), cmds[k]->kernel_id)->0,
                    DispatchWorkgroup { x: cmds[k]->grid.0, y: cmds[k]->grid.1, z: cmds[k]->grid.2 },
                    ce,
                ))
            }
        } else {
            &&& r == Ok::<usize, SgpuSubmissionError>(n as usize)
            &&& after.spec_manager().spec_contents() == spec_copies(c0, rs, cmds, n as int)
            &&& after.spec_completed() == self.spec_completed() + n
        }
    }

    /// Submits a decoded list: checks it as a whole, then runs it in order.
    pub fn submit(&mut self, list: &SgpuCommandList) -> (r: Result<usize, SgpuSubmissionError>)
        requires
            old(self).wf(),
        ensures
            final(self).wf(),
            final(self).spec_resources() == old(self).spec_resources(),
            final(self).spec_kernels() == old(self).spec_kernels(),
            final(self).spec_resource_bytes() == old(self).spec_resource_bytes(),
            final(self).spec_manager().spec_pipelines() == old(self).spec_manager().spec_pipelines(),
            old(self).spec_submit(list.cmds@, &*final(self), r),
    {
        let n = list.cmds.len();
        if n > SGPU_MAX_COMMANDS || self.completed.checked_add(n as u64).is_none() {
            return Err(SgpuSubmissionError { command_index: None, completed: 0, error: SgpuComputeError::Limit });
        }
        let ghost cmds = list.cmds@;
        let mut i: usize = 0;
        while i < n
            invariant
                n == cmds.len(),
                cmds == list.cmds@,
                n <= SGPU_MAX_COMMANDS,
                i <= n,
                self.wf(),
                *self == *old(self),
                old(self).spec_completed() + n <= u64::MAX,
                forall|j: int| 0 <= j < i ==> self.spec_command_valid(#[trigger] cmds[j]),
            decreases n - i,
        {
            match self.validate_command(&list.cmds[i]) {
                Ok(()) => {},
                Err(error) => {
                    assert(self.spec_first_invalid(cmds, i as int));
                    return Err(SgpuSubmissionError { command_index: Some(i), completed: 0, error });
                },
            }
            i = i + 1;
        }
        assert forall|k: int| !old(self).spec_first_invalid(cmds, k) by {
            if 0 <= k < n {
                assert(old(self).spec_command_valid(cmds[k]));
            }
        }
        let ghost c0 = old(self).spec_manager().spec_contents();
        let ghost rs = old(self).spec_resources();
        let mut k: usize = 0;
        while k < n
            invariant
                n == cmds.len(),
                cmds == list.cmds@,
                n <= SGPU_MAX_COMMANDS,
                k <= n,
                self.wf(),
                old(self).spec_completed() + n <= u64::MAX,
                forall|j: int| 0 <= j < n ==> old(self).spec_command_valid(#[trigger] cmds[j]),
                forall|j: int| 0 <= j < k ==> !(#[trigger] cmds[j] is ComputeDispatch),
                self.spec_resources() == rs,
                rs == old(self).spec_resources(),
                self.spec_kernels() == old(self).spec_kernels(),
                self.spec_resource_bytes() == old(self).spec_resource_bytes(),
                self.spec_manager().spec_pipelines() == old(self).spec_manager().spec_pipelines(),
                self.spec_manager().spec_contents() == spec_copies(c0, rs, cmds, k as int),
                c0 == old(self).spec_manager().spec_contents(),
                self.spec_completed() == old(self).spec_completed() + k,
            decreases n - k,
        {
            assert(old(self).spec_command_valid(cmds[k as int]));
            assert(self.spec_command_valid(cmds[k as int]));
            let ghost before = self.spec_manager().spec_contents();
            match self.execute_command(&list.cmds[k]) {
                Ok(()) => {},
                Err(error) => {
                    proof {
                        assert(cmds[k as int] is ComputeDispatch);
                        assert(spec_first_dispatch(cmds, k as int));
                    }
                    return Err(SgpuSubmissionError { command_index: Some(k), completed: k, error });
                },
            }
            assert(cmds[k as int] is CopyBuffer);
            self.completed = self.completed + 1;
            k = k + 1;
        }
        assert forall|j: int| !spec_first_dispatch(cmds, j) by {
            if 0 <= j < n {
                assert(!(cmds[j] is ComputeDispatch));
            }
        }
        Ok(n)
    }

    /// The session may resume the list `cmds` at its dispatch `index` on
    /// pipeline `pid` over `wg`: the list is within the caps, every command
    /// from `index` on passes the preflight, the command at `index` is that
    /// dispatch of a registered kernel, and the manager admits it.
    pub open spec fn spec_resume_ready(&self, cmds: Seq<SgpuCommand>, index: int, pid: u32, wg: DispatchWorkgroup) -> bool {
        &&& cmds.len() <= SGPU_MAX_COMMANDS
        &&& 0 <= index < cmds.len()
        &&& self.spec_completed() + (cmds.len() - index) <= u64::MAX
        &&& (forall|j: int| index <= j < cmds.len() ==> self.spec_command_valid(#[trigger] cmds[j]))
        &&& cmds[index] is ComputeDispatch
        &&& pid == spec_find_kernel(self.spec_kernels(), cmds[index]->kernel_id)->0
        &&& wg == (DispatchWorkgroup { x: cmds[index]->grid.0, y: cmds[index]->grid.1, z: cmds[index]->grid.2 })
        &&& self.spec_manager().spec_dispatch_admits(pid, wg, true)
    }

    /// Runs the commands of a preflighted list from `from` on: copies until
    /// the next dispatch, which is checked by the manager and handed out.
    fn run_from(&mut self, list: &SgpuCommandList, from: usize) -> (r: Result<SgpuProgress, SgpuSubmissionError>)
        requires
            old(self).wf(),
            list.cmds@.len() <= SGPU_MAX_COMMANDS,
            from <= list.cmds@.len(),
            old(self).spec_completed() + (list.cmds@.len() - from) <= u64::MAX,
            forall|j: int| from <= j < list.cmds@.len() ==> old(self).spec_command_valid(#[trigger] list.cmds@[j]),
        ensures
            final(self).wf(),
            final(self).spec_resources() == old(self).spec_resources(),
            final(self).spec_kernels() == old(self).spec_kernels(),
            final(self).spec_resource_bytes() == old(self).spec_resource_bytes(),
            final(self).spec_manager().spec_pipelines() == old(self).spec_manager().spec_pipelines(),
            spec_run_from(
                old(self).spec_kernels(),
                old(self).spec_resources(),
                old(self).spec_manager().spec_contents(),
                old(self).spec_completed(),
                list.cmds@,
                from as int,
                *final(self),
                r,
            ),
    {
        let n = list.cmds.len();
        let ghost cmds = list.cmds@;
        let ghost c0 = old(self).spec_manager().spec_contents();
        let ghost rs = old(self).spec_resources();
        let mut k: usize = from;
        while k < n
            invariant
                n == cmds.len(),
                cmds == list.cmds@,
                n <= SGPU_MAX_COMMANDS,
                from <= k <= n,
                self.wf(),
                old(self).spec_completed() + (n - from) <= u64::MAX,
                forall|j: int| from <= j < n ==> old(self).spec_command_valid(#[trigger] cmds[j]),
                forall|j: int| from <= j < k ==> !(#[trigger] cmds[j] is ComputeDispatch),
                self.spec_resources() == rs,
                rs == old(self).spec_resources(),
                self.spec_kernels() == old(self).spec_kernels(),
                self.spec_resource_bytes() == old(self).spec_resource_bytes(),
                self.spec_manager().spec_pipelines() == old(self).spec_manager().spec_pipelines(),
                self.spec_manager().spec_contents() == spec_copies_range(c0, rs, cmds, from as int, k as int),
                c0 == old(self).spec_manager().spec_contents(),
                self.spec_completed() == old(self).spec_completed() + (k - from),
            decreases n - k,
        {
            assert(old(self).spec_command_valid(cmds[k as int]));
            assert(self.spec_command_valid(cmds[k as int]));
            match &list.cmds[k] {
                SgpuCommand::ComputeDispatch { kernel_id, grid, .. } => {
                    proof {
                        assert(spec_next_dispatch(cmds, from as int, k as int));
                    }
                    let pipeline_id = match self.kernel(*kernel_id) {
                        Some((_, p)) => p,
                        None => {
                            return Err(SgpuSubmissionError {
                                command_index: Some(k),
                                completed: k,
                                error: SgpuComputeError::KernelNotFound(*kernel_id),
                            });
                        },
                    };
                    let workgroups = DispatchWorkgroup { x: grid.0, y: grid.1, z: grid.2 };
                    let mut sync = GpuSyncManager::new();
                    let fence = sync.create_fence();
                    return match self.manager.dispatch_views(pipeline_id, workgroups, &sync, fence) {
                        Ok(views) => Ok(SgpuProgress::Dispatch(SgpuPending { index: k, pipeline_id, workgroups, views })),
                        Err(ce) => Err(SgpuSubmissionError {
                            command_index: Some(k),
                            completed: k,
                            error: SgpuComputeError::Executor(ExecutorError::Compute(ce)),
                        }),
                    };
                },
                _ => {},
            }
            match self.execute_command(&list.cmds[k]) {
                Ok(()) => {},
                Err(error) => {
                    return Err(SgpuSubmissionError { command_index: Some(k), completed: k, error });
                },
            }
            assert(cmds[k as int] is CopyBuffer);
            self.completed = self.completed + 1;
            k = k + 1;
        }
        assert forall|j: int| !spec_next_dispatch(cmds, from as int, j) by {
            if from <= j < n {
                assert(!(cmds[j] is ComputeDispatch));
            }
        }
        Ok(SgpuProgress::Finished(n))
    }

    /// Starts a submission whose dispatches a host backend runs: the list is
    /// checked as a whole as [`Self::submit`] checks it, then its copies run up
    /// to the first dispatch, which is handed out with its binding views (or
    /// refused with the manager's error); a list without dispatch runs to the end.
    pub fn submit_begin(&mut self, list: &SgpuCommandList) -> (r: Result<SgpuProgress, SgpuSubmissionError>)
        requires
            old(self).wf(),
        ensures
            final(self).wf(),
            final(self).spec_resources() == old(self).spec_resources(),
            final(self).spec_kernels() == old(self).spec_kernels(),
            final(self).spec_resource_bytes() == old(self).spec_resource_bytes(),
            final(self).spec_manager().spec_pipelines() == old(self).spec_manager().spec_pipelines(),
            ({
                let cmds = list.cmds@;
                if cmds.len() > SGPU_MAX_COMMANDS || old(self).spec_completed() + cmds.len() > u64::MAX {
                    &&& r matches Err(se) && se.command_index is None && se.completed == 0 && se.error is Limit
                    &&& *final(self) == *old(self)
                } else if exists|i: int| old(self).spec_first_invalid(cmds, i) {
                    &&& exists|i: int| #[trigger] old(self).spec_first_invalid(cmds, i) && (r matches Err(se)
                        && se.command_index == Some(i as usize) && se.completed == 0
                        && old(self).spec_command_error(cmds[i], se.error))
                    &&& *final(self) == *old(self)
                } else {
                    spec_run_from(
                        old(self).spec_kernels(),
                        old(self).spec_resources(),
                        old(self).spec_manager().spec_contents(),
                        old(self).spec_completed(),
                        cmds,
                        0,
                        *final(self),
                        r,
                    )
                }
            }),
    {
        let n = list.cmds.len();
        if n > SGPU_MAX_COMMANDS || self.completed.checked_add(n as u64).is_none() {
            return Err(SgpuSubmissionError { command_index: None, completed: 0, error: SgpuComputeError::Limit });
        }
        let ghost cmds = list.cmds@;
        let mut i: usize = 0;
        while i < n
            invariant
                n == cmds.len(),
                cmds == list.cmds@,
                n <= SGPU_MAX_COMMANDS,
                i <= n,
                self.wf(),
                *self == *old(self),
                old(self).spec_completed() + n <= u64::MAX,
                forall|j: int| 0 <= j < i ==> self.spec_command_valid(#[trigger] cmds[j]),
            decreases n - i,
        {
            match self.validate_command(&list.cmds[i]) {
                Ok(()) => {},
                Err(error) => {
                    assert(self.spec_first_invalid(cmds, i as int));
                    return Err(SgpuSubmissionError { command_index: Some(i), completed: 0, error });
                },
            }
            i = i + 1;
        }
        assert forall|k: int| !old(self).spec_first_invalid(cmds, k) by {
            if 0 <= k < n {
                assert(old(self).spec_command_valid(cmds[k]));
            }
        }
        self.run_from(list, 0)
    }

    /// Whether [`Self::submit_resume`] may take `pending` for `list`.
    pub fn resume_ready(&self, list: &SgpuCommandList, pending: &SgpuPending) -> (r: bool)
        requires
            self.wf(),
        ensures
            r == self.spec_resume_ready(
                list.cmds@,
                pending.index as int,
                pending.pipeline_id,
                pending.workgroups,
            ),
    {
        let n = list.cmds.len();
        let index = pending.index;
        if n > SGPU_MAX_COMMANDS || index >= n {
            return false;
        }
        if self.completed.checked_add((n - index) as u64).is_none() {
            return false;
        }
        let ghost cmds = list.cmds@;
        let mut j: usize = index;
        while j < n
            invariant
                n == cmds.len(),
                cmds == list.cmds@,
                index <= j <= n,
                index == pending.index,
                self.wf(),
                forall|i: int| index <= i < j ==> self.spec_command_valid(#[trigger] cmds[i]),
            decreases n - j,
        {
            match self.validate_command(&list.cmds[j]) {
                Ok(()) => {},
                Err(_) => {
                    assert(!self.spec_command_valid(cmds[j as int]));
                    return false;
                },
            }
            j = j + 1;
        }
        let (kernel_id, grid) = match &list.cmds[index] {
            SgpuCommand::ComputeDispatch { kernel_id, grid, .. } => (*kernel_id, *grid),
            _ => {
                return false;
            },
        };
        let pid = match self.kernel(kernel_id) {
            Some((_, p)) => p,
            None => {
                return false;
            },
        };
        if pid != pending.pipeline_id || grid.0 != pending.workgroups.x || grid.1 != pending.workgroups.y
            || grid.2 != pending.workgroups.z {
            return false;
        }
        let mut sync = GpuSyncManager::new();
        let fence = sync.create_fence();
        self.manager.dispatch_views(pid, pending.workgroups, &sync, fence).is_ok()
    }

    /// Takes what a host backend answered for `pending`, the dispatch that
    /// [`Self::submit_begin`] or an earlier resume handed out: a backend error
    /// stops the list with that error and changes nothing; readback whose count
    /// or sizes differ from the bindings is refused and changes nothing;
    /// otherwise the readback is committed, the dispatch counts as completed,
    /// and the list runs on to its next dispatch or its end.
    pub fn submit_resume(
        &mut self,
        list: &SgpuCommandList,
        pending: SgpuPending,
        outcome: Result<Vec<Vec<u8>>, ComputeError>,
    ) -> (r: Result<SgpuProgress, SgpuSubmissionError>)
        requires
            old(self).wf(),
            old(self).spec_resume_ready(list.cmds@, pending.index as int, pending.pipeline_id, pending.workgroups),
        ensures
            final(self).wf(),
            final(self).spec_resources() == old(self).spec_resources(),
            final(self).spec_kernels() == old(self).spec_kernels(),
            final(self).spec_resource_bytes() == old(self).spec_resource_bytes(),
            final(self).spec_manager().spec_pipelines() == old(self).spec_manager().spec_pipelines(),
            ({
                let bs = old(self).spec_manager().spec_pipelines()[pending.pipeline_id].descriptor.buffer_bindings@;
                match outcome {
                    Err(e) => (r matches Err(se) && se.command_index == Some(pending.index)
                        && se.completed == pending.index && (se.error matches SgpuComputeError::Executor(
                        ExecutorError::Compute(ce),
                    ) && ce == e)) && final(self).spec_manager().spec_contents()
                        == old(self).spec_manager().spec_contents() && final(self).spec_completed()
                        == old(self).spec_completed(),
                    Ok(updated) => if !spec_readback_matches(bs, updated@) {
                        (r matches Err(se) && se.command_index == Some(pending.index) && se.completed
                            == pending.index && (se.error matches SgpuComputeError::Executor(
                            ExecutorError::Compute(ComputeError::Generic(m)),
                        ) && m@ == "backend readback sizes disagree"@))
                            && final(self).spec_manager().spec_contents()
                            == old(self).spec_manager().spec_contents() && final(self).spec_completed()
                            == old(self).spec_completed()
                    } else {
                        spec_run_from(
                            old(self).spec_kernels(),
                            old(self).spec_resources(),
                            spec_commit(old(self).spec_manager().spec_contents(), bs, updated@, bs.len() as int),
                            (old(self).spec_completed() + 1) as u64,
                            list.cmds@,
                            pending.index + 1,
                            *final(self),
                            r,
                        )
                    },
                }
            }),
    {
        let index = pending.index;
        let updated = match outcome {
            Ok(u) => u,
            Err(e) => {
                return Err(SgpuSubmissionError {
                    command_index: Some(index),
                    completed: index,
                    error: SgpuComputeError::Executor(ExecutorError::Compute(e)),
                });
            },
        };
        let ghost c0 = self.spec_manager().spec_contents();
        let ghost bs = self.spec_manager().spec_pipelines()[pending.pipeline_id].descriptor.buffer_bindings@;
        let ghost up = updated@;
        let mut sync = GpuSyncManager::new();
        let fence = sync.create_fence();
        match self.manager.commit_dispatch(pending.pipeline_id, pending.workgroups, updated, &mut sync, fence) {
            Ok(()) => {},
            Err(e) => {
                return Err(SgpuSubmissionError {
                    command_index: Some(index),
                    completed: index,
                    error: SgpuComputeError::Executor(ExecutorError::Compute(e)),
                });
            },
        }
        proof {
            lemma_commit_keeps_sizes(c0, bs, up, bs.len() as int);
            assert forall|i: int| 0 <= i < self.resources@.len() implies {
                let (h, b, n) = #[trigger] self.resources@[i];
                &&& self.manager.spec_contents().contains_key(b)
                &&& self.manager.spec_contents()[b].len() == n
            } by {
                let (h, b, n) = self.resources@[i];
                assert(c0.contains_key(b));
            }
        }
        self.completed = self.completed + 1;
        self.run_from(list, index + 1)
    }

    /// Decodes the list in `length` bytes of `snapshot` from `offset` on and
    /// submits it; a wire error is reported before anything runs.
    pub fn submit_wire(&mut self, snapshot: &[u8], offset: u64, length: u64) -> (r: Result<usize, SgpuSubmissionError>)
        requires
            old(self).wf(),
        ensures
            final(self).wf(),
            final(self).spec_resources() == old(self).spec_resources(),
            final(self).spec_kernels() == old(self).spec_kernels(),
            final(self).spec_resource_bytes() == old(self).spec_resource_bytes(),
            final(self).spec_manager().spec_pipelines() == old(self).spec_manager().spec_pipelines(),
            match SgpuCommandList::spec_decode_window(snapshot@, offset, length) {
                Err(we) => (r matches Err(se) && se.command_index is None && se.completed == 0 && (se.error matches SgpuComputeError::Wire(w) && w == we))
                    && *final(self) == *old(self),
                Ok(cmds) => old(self).spec_submit(cmds, &*final(self), r),
            },
    {
        let list = match SgpuCommandList::decode_window(snapshot, offset, length) {
            Ok(l) => l,
            Err(error) => {
                return Err(
                    SgpuSubmissionError {
                        command_index: None,
                        completed: 0,
                        error: SgpuComputeError::Wire(error),
                    },
                );
            },
        };
        self.submit(&list)
    }
}

/// With handles registered once each, the entry holding a handle is the one found.
proof fn lemma_unique_handle(rs: Seq<(u64, u64, u64)>, i: int, h: u64)
    requires
        0 <= i < rs.len(),
        rs[i].0 == h,
        forall|a: int, b: int| 0 <= a < b < rs.len() ==> (#[trigger] rs[a]).0 != (#[trigger] rs[b]).0,
    ensures
        spec_find_resource(rs, h) == Some(rs[i]),
{
    let j = choose|j: int| 0 <= j < rs.len() && (#[trigger] rs[j]).0 == h;
    if j < i {
        assert(rs[j].0 != rs[i].0);
    } else if i < j {
        assert(rs[i].0 != rs[j].0);
    }
}

/// With buffers registered once each, the entry holding a buffer is the one found.
proof fn lemma_unique_buffer(rs: Seq<(u64, u64, u64)>, i: int, b: u64)
    requires
        0 <= i < rs.len(),
        rs[i].1 == b,
        forall|x: int, y: int|
            0 <= x < y < rs.len() ==> (#[trigger] rs[x]).0 != (#[trigger] rs[y]).0 && rs[x].1 != rs[y].1,
    ensures
        spec_find_by_buffer(rs, b) == Some(rs[i]),
{
    let j = choose|j: int| 0 <= j < rs.len() && (#[trigger] rs[j]).1 == b;
    if j < i {
        assert(rs[j].1 != rs[i].1);
    } else if i < j {
        assert(rs[i].1 != rs[j].1);
    }
}

/// With guest kernel ids registered once each, the entry holding an id is the one found.
proof fn lemma_unique_kernel(ks: Seq<(u32, u32)>, i: int, g: u32)
    requires
        0 <= i < ks.len(),
        ks[i].0 == g,
        forall|a: int, b: int| 0 <= a < b < ks.len() ==> (#[trigger] ks[a]).0 != (#[trigger] ks[b]).0,
    ensures
        spec_find_kernel(ks, g) == Some(ks[i].1),
{
    let j = choose|j: int| 0 <= j < ks.len() && (#[trigger] ks[j]).0 == g;
    if j < i {
        assert(ks[j].0 != ks[i].0);
    } else if i < j {
        assert(ks[i].0 != ks[j].0);
    }
}

/// Removing an entry takes its size off the total.
proof fn lemma_total_remove(rs: Seq<(u64, u64, u64)>, i: int)
    requires
        0 <= i < rs.len(),
    ensures
        spec_total_size(rs.remove(i)) == spec_total_size(rs) - rs[i].2,
    decreases rs.len(),
{
    if i == rs.len() - 1 {
        assert(rs.remove(i) =~= rs.drop_last());
    } else {
        lemma_total_remove(rs.drop_last(), i);
        assert(rs.remove(i).drop_last() =~= rs.drop_last().remove(i));
        assert(rs.remove(i).last() == rs.last());
    }
}

/// The total of registered sizes is at least each size.
proof fn lemma_total_bounds(rs: Seq<(u64, u64, u64)>)
    ensures
        spec_total_size(rs) >= 0,
        forall|i: int| 0 <= i < rs.len() ==> spec_total_size(rs) >= (#[trigger] rs[i]).2,
    decreases rs.len(),
{
    if rs.len() > 0 {
        lemma_total_bounds(rs.drop_last());
        assert forall|i: int| 0 <= i < rs.len() implies spec_total_size(rs) >= (#[trigger] rs[i]).2 by {
            if i < rs.len() - 1 {
                assert(rs.drop_last()[i] == rs[i]);
            }
        }
    }
}

} // verus!
