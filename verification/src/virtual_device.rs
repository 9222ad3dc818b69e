//! A software model of a Metal-class device: host buffers and a command
//! queue that only performs buffer copies.
use vstd::prelude::*;
use std::collections::HashMap;
use crate::canonical_spec::{GpuCapabilities, GpuVendor};
use crate::wire::{copy_range, overwrite, spec_overwrite};
use crate::text::{decimal_string, spec_decimal};

verus! {

broadcast use vstd::std_specs::hash::group_hash_axioms;

#[derive(Debug)]
pub enum GpuError {
    UnsupportedCommand,
    BufferNotFound(u64),
    OutOfMemory,
    InvalidHandle(u64),
    DriverError(String),
}

impl GpuError {
    /// The error's message.
    pub open spec fn spec_message(&self) -> Seq<char> {
        match self {
            GpuError::UnsupportedCommand => "unsupported command"@,
            GpuError::BufferNotFound(h) => "buffer not found: "@ + spec_decimal(*h as nat),
            GpuError::OutOfMemory => "out of memory"@,
            GpuError::InvalidHandle(h) => "invalid handle: "@ + spec_decimal(*h as nat),
            GpuError::DriverError(m) => "driver error: "@ + m@,
        }
    }

    pub fn message(&self) -> (r: String)
        ensures
            r@ == self.spec_message(),
    {
        match self {
            GpuError::UnsupportedCommand => String::from_str("unsupported command"),
            GpuError::BufferNotFound(h) => {
                let mut m = String::from_str("buffer not found: ");
                m.append(decimal_string(*h).as_str());
                m
            },
            GpuError::OutOfMemory => String::from_str("out of memory"),
            GpuError::InvalidHandle(h) => {
                let mut m = String::from_str("invalid handle: ");
                m.append(decimal_string(*h).as_str());
                m
            },
            GpuError::DriverError(d) => {
                let mut m = String::from_str("driver error: ");
                m.append(d.as_str());
                m
            },
        }
    }
}

#[derive(Debug, Clone)]
pub struct GpuBuffer {
    pub handle: u64,
    pub size: u64,
    pub host_ptr: Vec<u8>,
}

#[derive(Debug, Clone, Copy)]
pub enum GpuCommand {
    CopyBuffer { src: u64, dst: u64, size: u64 },
    ComputeKernel { kernel_id: u32, grid: (u32, u32, u32), block: (u32, u32, u32) },
    /// Clear color, each channel an `f32` bit pattern.
    RenderClear { color_bits: [u32; 4] },
    PresentSwapchain { buffer: u64 },
}

#[derive(Debug, Clone)]
pub struct CommandBuffer {
    pub cmds: Vec<GpuCommand>,
}

#[derive(Debug, Clone, Copy, PartialEq, Eq, Structural)]
pub enum AccelerationMode {
    Software,
    HardwareWrapped,
    Full,
}

/// Host memory of the device: byte buffers under handles from 1 up.
#[derive(Debug, Clone)]
pub struct GpuMemoryManager {
    next_handle: u64,
    buffers: HashMap<u64, Vec<u8>>,
}

impl GpuMemoryManager {
    /// The bytes of each buffer, by handle.
    pub closed spec fn spec_buffers(&self) -> Map<u64, Seq<u8>> {
        Map::new(|h: u64| self.buffers@.contains_key(h), |h: u64| self.buffers@[h]@)
    }

    /// The handle the next allocation gets.
    pub closed spec fn spec_next_handle(&self) -> u64 {
        self.next_handle
    }

    /// Every handle in use is below the next one.
    pub closed spec fn wf(&self) -> bool {
        &&& 1 <= self.next_handle
        &&& forall|h: u64| #[trigger] self.buffers@.contains_key(h) ==> 1 <= h < self.next_handle
    }

    pub fn new() -> (r: Self)
        ensures
            r.wf(),
            r.spec_buffers().is_empty(),
            r.spec_next_handle() == 1,
    {
        let r = GpuMemoryManager { next_handle: 1, buffers: HashMap::new() };
        assert(r.spec_buffers() =~= Map::empty());
        r
    }

    /// Allocates a zero-filled buffer of `size` bytes under the next handle.
    pub fn allocate(&mut self, size: u64) -> (r: GpuBuffer)
        requires
            old(self).wf(),
            old(self).spec_next_handle() < u64::MAX,
        ensures
            final(self).wf(),
            r.handle == old(self).spec_next_handle(),
            r.size == size,
            r.host_ptr@ == Seq::new((size as usize) as nat, |i: int| 0u8),
            !old(self).spec_buffers().contains_key(r.handle),
            final(self).spec_buffers() == old(self).spec_buffers().insert(r.handle, r.host_ptr@),
            final(self).spec_next_handle() == r.handle + 1,
    {
        let handle = self.next_handle;
        self.next_handle = self.next_handle + 1;
        let n = size as usize;
        let host_ptr = vec![0u8; n];
        let stored = vec![0u8; n];
        assert(host_ptr@ =~= Seq::new(n as nat, |i: int| 0u8));
        assert(stored@ =~= host_ptr@);
        self.buffers.insert(handle, stored);
        assert forall|h: u64| #[trigger] self.buffers@.contains_key(h) implies 1 <= h < self.next_handle by {
            if h != handle {
                assert(old(self).buffers@.contains_key(h));
            }
        }
        assert(self.spec_buffers() =~= old(self).spec_buffers().insert(handle, host_ptr@));
        GpuBuffer { handle, size, host_ptr }
    }

    /// Reads `len` bytes of buffer `handle` from byte `offset` on.
    pub fn read(&self, handle: u64, offset: u64, len: u64) -> (r: Result<Vec<u8>, GpuError>)
        ensures
            r is Ok <==> self.spec_buffers().contains_key(handle) && offset + len
                <= self.spec_buffers()[handle].len(),
            r matches Ok(v) ==> v@ == self.spec_buffers()[handle].subrange(
                offset as int,
                offset + len,
            ),
            r matches Err(e) ==> (if self.spec_buffers().contains_key(handle) {
                e matches GpuError::InvalidHandle(h) && h == handle
            } else {
                e matches GpuError::BufferNotFound(h) && h == handle
            }),
    {
        let buf = match self.buffers.get(&handle) {
            Some(b) => b,
            None => {
                return Err(GpuError::BufferNotFound(handle));
            },
        };
        let blen = buf.len();
        if offset > usize::MAX as u64 || len > usize::MAX as u64 {
            return Err(GpuError::InvalidHandle(handle));
        }
        let start = offset as usize;
        let n = len as usize;
        let end = match start.checked_add(n) {
            Some(e) => e,
            None => {
                return Err(GpuError::InvalidHandle(handle));
            },
        };
        if end > blen {
            return Err(GpuError::InvalidHandle(handle));
        }
        Ok(copy_range(buf.as_slice(), start, end))
    }

    /// Writes `data` into buffer `handle` from byte `offset` on.
    pub fn write(&mut self, handle: u64, offset: u64, data: &[u8]) -> (r: Result<(), GpuError>)
        requires
            old(self).wf(),
        ensures
            final(self).wf(),
            final(self).spec_next_handle() == old(self).spec_next_handle(),
            r is Ok <==> old(self).spec_buffers().contains_key(handle) && offset + data@.len()
                <= old(self).spec_buffers()[handle].len(),
            r is Ok ==> final(self).spec_buffers() == old(self).spec_buffers().insert(
                handle,
                spec_overwrite(old(self).spec_buffers()[handle], offset as int, data@),
            ),
            r is Err ==> final(self).spec_buffers() == old(self).spec_buffers(),
            r matches Err(e) ==> (if old(self).spec_buffers().contains_key(handle) {
                e matches GpuError::InvalidHandle(h) && h == handle
            } else {
                e matches GpuError::BufferNotFound(h) && h == handle
            }),
    {
        let blen = match self.buffers.get(&handle) {
            Some(b) => b.len(),
            None => {
                return Err(GpuError::BufferNotFound(handle));
            },
        };
        if offset > usize::MAX as u64 {
            return Err(GpuError::InvalidHandle(handle));
        }
        let start = offset as usize;
        let end = match start.checked_add(data.len()) {
            Some(e) => e,
            None => {
                return Err(GpuError::InvalidHandle(handle));
            },
        };
        if end > blen {
            return Err(GpuError::InvalidHandle(handle));
        }
        let ghost before = self.buffers@;
        let mut buf = match self.buffers.remove(&handle) {
            Some(b) => b,
            None => {
                return Err(GpuError::BufferNotFound(handle));
            },
        };
        overwrite(&mut buf, start, data);
        self.buffers.insert(handle, buf);
        assert forall|h: u64| #[trigger] self.buffers@.contains_key(h) implies 1 <= h < self.next_handle by {
            assert(before.contains_key(h));
        }
        assert(self.spec_buffers() =~= old(self).spec_buffers().insert(
            handle,
            spec_overwrite(old(self).spec_buffers()[handle], offset as int, data@),
        ));
        Ok(())
    }

    /// Releases buffer `handle`.
    pub fn free(&mut self, handle: u64) -> (r: Result<(), GpuError>)
        requires
            old(self).wf(),
        ensures
            final(self).wf(),
            final(self).spec_next_handle() == old(self).spec_next_handle(),
            r is Ok <==> old(self).spec_buffers().contains_key(handle),
            final(self).spec_buffers() == old(self).spec_buffers().remove(handle),
            r matches Err(e) ==> (e matches GpuError::BufferNotFound(h) && h == handle),
    {
        let r = match self.buffers.remove(&handle) {
            Some(_) => Ok(()),
            None => Err(GpuError::BufferNotFound(handle)),
        };
        assert forall|h: u64| #[trigger] self.buffers@.contains_key(h) implies 1 <= h < self.next_handle by {
            assert(old(self).buffers@.contains_key(h));
        }
        assert(self.spec_buffers() =~= old(self).spec_buffers().remove(handle));
        r
    }

    /// The length of buffer `handle`.
    fn buffer_len(&self, handle: u64) -> (r: Result<usize, GpuError>)
        ensures
            r is Ok <==> self.spec_buffers().contains_key(handle),
            r matches Ok(n) ==> n == self.spec_buffers()[handle].len(),
            r matches Err(e) ==> (e matches GpuError::BufferNotFound(h) && h == handle),
    {
        match self.buffers.get(&handle) {
            Some(b) => Ok(b.len()),
            None => Err(GpuError::BufferNotFound(handle)),
        }
    }
}

impl Default for GpuMemoryManager {
    fn default() -> (r: Self)
        ensures
            r.wf(),
            r.spec_buffers().is_empty(),
            r.spec_next_handle() == 1,
    {
        Self::new()
    }
}

/// A command's validation failure against buffers `bufs`, if any: copies must
/// name existing buffers both at least `size` long; nothing else runs here.
pub open spec fn spec_command_fault(bufs: Map<u64, Seq<u8>>, cmd: GpuCommand) -> Option<GpuError> {
    match cmd {
        GpuCommand::CopyBuffer { src, dst, size } => {
            if !bufs.contains_key(src) {
                Some(GpuError::BufferNotFound(src))
            } else if size > bufs[src].len() {
                Some(GpuError::InvalidHandle(dst))
            } else if !bufs.contains_key(dst) {
                Some(GpuError::BufferNotFound(dst))
            } else if size > bufs[dst].len() {
                Some(GpuError::InvalidHandle(dst))
            } else {
                None
            }
        },
        _ => Some(GpuError::UnsupportedCommand),
    }
}

/// The commands before `i` pass validation and the one at `i` does not.
pub open spec fn spec_first_command_fault(bufs: Map<u64, Seq<u8>>, cmds: Seq<GpuCommand>, i: int) -> bool {
    &&& 0 <= i < cmds.len()
    &&& spec_command_fault(bufs, cmds[i]) is Some
    &&& forall|j: int| 0 <= j < i ==> spec_command_fault(bufs, #[trigger] cmds[j]) is None
}

/// The buffers after the first `n` copies of `cmds` ran in order, each copying
/// the first `size` bytes of its source over the start of its destination.
pub open spec fn spec_run_copies(bufs: Map<u64, Seq<u8>>, cmds: Seq<GpuCommand>, n: int) -> Map<u64, Seq<u8>>
    decreases n,
{
    if n <= 0 {
        bufs
    } else {
        let b = spec_run_copies(bufs, cmds, n - 1);
        match cmds[n - 1] {
            GpuCommand::CopyBuffer { src, dst, size } => b.insert(
                dst,
                spec_overwrite(b[dst], 0, b[src].subrange(0, size as int)),
            ),
            _ => b,
        }
    }
}

pub open spec fn spec_vendor_label(v: GpuVendor) -> Seq<char> {
    match v {
        GpuVendor::AMD => "AMD"@,
        GpuVendor::NVIDIA => "NVIDIA"@,
        GpuVendor::Intel => "Intel"@,
        GpuVendor::Unknown => "Generic"@,
    }
}

#[derive(Debug, Clone)]
pub struct VirtualMetalDevice {
    pub spec: GpuCapabilities,
    pub name: String,
    pub memory: GpuMemoryManager,
    pub acceleration_mode: AccelerationMode,
}

impl VirtualMetalDevice {
    /// A software device for `spec`, named after its vendor. Capability
    /// metadata never promotes it past software acceleration.
    pub fn new(spec: GpuCapabilities) -> (r: Self)
        ensures
            r.spec.vendor == spec.vendor,
            r.spec.vram_size == spec.vram_size,
            r.spec == spec,
            r.name@ == "Apple "@ + spec_vendor_label(spec.vendor) + " GPU"@,
            r.memory.wf(),
            r.memory.spec_buffers().is_empty(),
            r.memory.spec_next_handle() == 1,
            r.acceleration_mode == AccelerationMode::Software,
    {
        let vendor_str = match spec.vendor {
            GpuVendor::AMD => "AMD",
            GpuVendor::NVIDIA => "NVIDIA",
            GpuVendor::Intel => "Intel",
            GpuVendor::Unknown => "Generic",
        };
        let mut name = String::from_str("Apple ");
        name.append(vendor_str);
        name.append(" GPU");
        VirtualMetalDevice {
            spec,
            name,
            memory: GpuMemoryManager::new(),
            acceleration_mode: AccelerationMode::Software,
        }
    }

    /// Capability metadata cannot establish an executing Metal backend.
    pub fn supports_metal(&self) -> (r: bool)
        ensures
            !r,
    {
        false
    }

    pub fn device_name(&self) -> (r: &str)
        ensures
            r@ == self.name@,
    {
        self.name.as_str()
    }

    pub fn vram_size(&self) -> (r: u64)
        ensures
            r == self.spec.vram_size,
    {
        self.spec.vram_size
    }

    pub fn is_software_accelerated(&self) -> (r: bool)
        ensures
            r == (self.acceleration_mode == AccelerationMode::Software),
    {
        match self.acceleration_mode {
            AccelerationMode::Software => true,
            _ => false,
        }
    }

    pub fn allocate_buffer(&mut self, size: u64) -> (r: GpuBuffer)
        requires
            old(self).memory.wf(),
            old(self).memory.spec_next_handle() < u64::MAX,
        ensures
            final(self).memory.wf(),
            r.handle == old(self).memory.spec_next_handle(),
            r.size == size,
            r.host_ptr@ == Seq::new((size as usize) as nat, |i: int| 0u8),
            final(self).memory.spec_buffers() == old(self).memory.spec_buffers().insert(r.handle, r.host_ptr@),
            final(self).memory.spec_next_handle() == r.handle + 1,
            final(self).spec == old(self).spec,
            final(self).name == old(self).name,
            final(self).acceleration_mode == old(self).acceleration_mode,
    {
        self.memory.allocate(size)
    }

    /// Validates every command of `cmdbuf` before running any, then runs the
    /// buffer copies in order. Any other command, or a copy that names a
    /// missing or too short buffer, rejects the whole list unchanged.
    pub fn write_command_buffer(&mut self, cmdbuf: CommandBuffer) -> (r: Result<(), GpuError>)
        requires
            old(self).memory.wf(),
        ensures
            final(self).memory.wf(),
            final(self).memory.spec_next_handle() == old(self).memory.spec_next_handle(),
            final(self).spec == old(self).spec,
            final(self).name == old(self).name,
            final(self).acceleration_mode == old(self).acceleration_mode,
            r is Ok <==> forall|i: int| 0 <= i < cmdbuf.cmds@.len() ==> spec_command_fault(
                old(self).memory.spec_buffers(),
                #[trigger] cmdbuf.cmds@[i],
            ) is None,
            r matches Err(e) ==> exists|i: int| spec_first_command_fault(
                old(self).memory.spec_buffers(),
                cmdbuf.cmds@,
                i,
            ) && spec_command_fault(old(self).memory.spec_buffers(), cmdbuf.cmds@[i]) == Some(e),
            r is Err ==> final(self).memory.spec_buffers() == old(self).memory.spec_buffers(),
            r is Ok ==> final(self).memory.spec_buffers() == spec_run_copies(
                old(self).memory.spec_buffers(),
                cmdbuf.cmds@,
                cmdbuf.cmds@.len() as int,
            ),
    {
        let cmds = cmdbuf.cmds;
        let n = cmds.len();
        let ghost start = self.memory.spec_buffers();
        let mut i: usize = 0;
        while i < n
            invariant
                i <= n,
                n == cmds@.len(),
                self.memory.spec_buffers() == start,
                *self == *old(self),
                start == old(self).memory.spec_buffers(),
                cmdbuf.cmds@ == cmds@,
                old(self).memory.wf(),
                forall|j: int| 0 <= j < i ==> spec_command_fault(start, #[trigger] cmds@[j]) is None,
            decreases n - i,
        {
            match cmds[i] {
                GpuCommand::CopyBuffer { src, dst, size } => {
                    let src_len = match self.memory.buffer_len(src) {
                        Ok(l) => l,
                        Err(_) => {
                            assert(spec_first_command_fault(start, cmds@, i as int));
                            assert(spec_command_fault(start, cmds@[i as int]) == Some(GpuError::BufferNotFound(src)));
                            return Err(GpuError::BufferNotFound(src));
                        },
                    };
                    if size > src_len as u64 {
                        assert(spec_first_command_fault(start, cmds@, i as int));
                        return Err(GpuError::InvalidHandle(dst));
                    }
                    let dst_len = match self.memory.buffer_len(dst) {
                        Ok(l) => l,
                        Err(_) => {
                            assert(spec_first_command_fault(start, cmds@, i as int));
                            assert(spec_command_fault(start, cmds@[i as int]) == Some(GpuError::BufferNotFound(dst)));
                            return Err(GpuError::BufferNotFound(dst));
                        },
                    };
                    if size > dst_len as u64 {
                        assert(spec_first_command_fault(start, cmds@, i as int));
                        return Err(GpuError::InvalidHandle(dst));
                    }
                },
                _ => {
                    assert(spec_first_command_fault(start, cmds@, i as int));
                    return Err(GpuError::UnsupportedCommand);
                },
            }
            i = i + 1;
        }
        let mut k: usize = 0;
        while k < n
            invariant
                k <= n,
                n == cmds@.len(),
                self.memory.wf(),
                self.memory.spec_next_handle() == old(self).memory.spec_next_handle(),
                self.spec == old(self).spec,
                self.name == old(self).name,
                self.acceleration_mode == old(self).acceleration_mode,
                start == old(self).memory.spec_buffers(),
                cmdbuf.cmds@ == cmds@,
                forall|j: int| 0 <= j < n ==> spec_command_fault(start, #[trigger] cmds@[j]) is None,
                self.memory.spec_buffers() == spec_run_copies(start, cmds@, k as int),
                self.memory.spec_buffers().dom() == start.dom(),
                forall|h: u64| #[trigger] start.contains_key(h) ==> self.memory.spec_buffers()[h].len()
                    == start[h].len(),
            decreases n - k,
        {
            assert(spec_command_fault(start, cmds@[k as int]) is None);
            match cmds[k] {
                GpuCommand::CopyBuffer { src, dst, size } => {
                    let data = match self.memory.read(src, 0, size) {
                        Ok(d) => d,
                        Err(e) => {
                            return Err(e);
                        },
                    };
                    match self.memory.write(dst, 0, data.as_slice()) {
                        Ok(()) => {},
                        Err(e) => {
                            return Err(e);
                        },
                    }
                },
                _ => {},
            }
            k = k + 1;
        }
        Ok(())
    }

    pub fn flush(&mut self) -> (r: Result<(), GpuError>)
        ensures
            r is Ok,
            *final(self) == *old(self),
    {
        Ok(())
    }
}


/// What a device-memory write put in, a read of the same range gives back:
/// when `write(handle, offset, data)` on memory `before` succeeds and leaves
/// `after`, reading `data.len()` bytes at `offset` from `after` succeeds with
/// `data`; the buffer keeps its length and every other buffer is unchanged.
pub proof fn law_memory_write_then_read(
    before: GpuMemoryManager,
    after: GpuMemoryManager,
    handle: u64,
    offset: u64,
    data: Seq<u8>,
)
    requires
        before.spec_buffers().contains_key(handle),
        offset + data.len() <= before.spec_buffers()[handle].len(),
        after.spec_buffers() == before.spec_buffers().insert(
            handle,
            spec_overwrite(before.spec_buffers()[handle], offset as int, data),
        ),
    ensures
        after.spec_buffers().contains_key(handle),
        after.spec_buffers()[handle].len() == before.spec_buffers()[handle].len(),
        after.spec_buffers()[handle].subrange(offset as int, offset + data.len()) == data,
        forall|h: u64| h != handle ==> after.spec_buffers().contains_key(h) == before.spec_buffers().contains_key(h)
            && after.spec_buffers()[h] == before.spec_buffers()[h],
{
    assert(after.spec_buffers()[handle].subrange(offset as int, offset + data.len()) =~= data);
}

} // verus!
