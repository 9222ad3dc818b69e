//! Device selection and resource rules of the explicit host Vulkan 1.1 compute
//! backend.
//!
//! The backend itself (loader, instance, device, submission) lives with the
//! host application; this module decides, from the values a driver reports,
//! which physical device may serve, which memory type a buffer uses, and
//! whether a dispatch fits the device's limits. It never selects a device
//! silently and never falls back to a CPU or virtual device.
use vstd::prelude::*;
use crate::compute::{BufferBinding, ComputeError, ComputePipelineDescriptor};
use crate::spirv::ShaderProfile;
use std::collections::BTreeSet;
use crate::text::{decimal_string, hex_word, spec_decimal, spec_hex_word, str_eq};

verus! {

/// `VK_QUEUE_COMPUTE_BIT`.
pub const QUEUE_COMPUTE: u32 = 0x2;
/// `VK_MEMORY_PROPERTY_DEVICE_LOCAL_BIT`.
pub const MEMORY_DEVICE_LOCAL: u32 = 0x1;
/// `VK_MEMORY_PROPERTY_HOST_VISIBLE_BIT`.
pub const MEMORY_HOST_VISIBLE: u32 = 0x2;
/// `VK_MEMORY_PROPERTY_HOST_COHERENT_BIT`.
pub const MEMORY_HOST_COHERENT: u32 = 0x4;
/// `VK_MEMORY_PROPERTY_HOST_CACHED_BIT`.
pub const MEMORY_HOST_CACHED: u32 = 0x8;
/// `VK_MEMORY_PROPERTY_LAZILY_ALLOCATED_BIT`.
pub const MEMORY_LAZILY_ALLOCATED: u32 = 0x10;
/// `VK_MEMORY_PROPERTY_PROTECTED_BIT`.
pub const MEMORY_PROTECTED: u32 = 0x20;
/// `VK_MEMORY_PROPERTY_DEVICE_COHERENT_BIT_AMD`.
pub const MEMORY_DEVICE_COHERENT_AMD: u32 = 0x40;
/// `VK_API_VERSION_1_0`.
pub const API_VERSION_1_0: u32 = 0x0040_0000;
/// `VK_API_VERSION_1_1`.
pub const API_VERSION_1_1: u32 = 0x0040_1000;
/// Memory types a device may report.
pub const MAX_MEMORY_TYPES: u32 = 32;
/// Memory heaps a device may report.
pub const MAX_MEMORY_HEAPS: u32 = 16;

/// Exact vendor and device ids of the one physical device to use.
#[derive(Debug, Clone, Copy, PartialEq, Eq, Structural)]
pub struct VulkanDeviceSelector {
    pub vendor_id: u32,
    pub device_id: u32,
}

#[derive(Debug, Clone, Copy, PartialEq, Eq, Structural)]
pub struct VulkanQueueFamilyInfo {
    pub index: u32,
    pub queue_count: u32,
    pub flags: u32,
}

#[derive(Debug, Clone, Copy, PartialEq, Eq, Structural)]
pub struct VulkanMemoryTypeInfo {
    pub index: u32,
    pub property_flags: u32,
    pub heap_index: u32,
    pub heap_size: u64,
    pub heap_flags: u32,
}

impl Default for VulkanQueueFamilyInfo {
    fn default() -> (r: Self)
        ensures
            r == (VulkanQueueFamilyInfo { index: 0, queue_count: 0, flags: 0 }),
    {
        VulkanQueueFamilyInfo { index: 0, queue_count: 0, flags: 0 }
    }
}

impl Default for VulkanMemoryTypeInfo {
    fn default() -> (r: Self)
        ensures
            r == (VulkanMemoryTypeInfo {
                index: 0,
                property_flags: 0,
                heap_index: 0,
                heap_size: 0,
                heap_flags: 0,
            }),
    {
        VulkanMemoryTypeInfo { index: 0, property_flags: 0, heap_index: 0, heap_size: 0, heap_flags: 0 }
    }
}

/// Compute-relevant limits reported by a physical device.
#[derive(Debug, Clone, Copy)]
pub struct VulkanComputeLimits {
    pub max_workgroup_count: [u32; 3],
    pub max_workgroup_size: [u32; 3],
    pub max_workgroup_invocations: u32,
    pub max_storage_buffer_range: u32,
    pub max_per_stage_storage_buffers: u32,
    pub max_descriptor_set_storage_buffers: u32,
    pub max_per_stage_resources: u32,
    pub max_bound_descriptor_sets: u32,
    pub max_memory_allocation_count: u32,
    pub non_coherent_atom_size: u64,
}

impl Default for VulkanComputeLimits {
    fn default() -> (r: Self)
        ensures
            r.max_workgroup_count@ == seq![0u32, 0u32, 0u32],
            r.max_workgroup_size@ == seq![0u32, 0u32, 0u32],
            r.max_workgroup_invocations == 0,
            r.max_storage_buffer_range == 0,
            r.max_per_stage_storage_buffers == 0,
            r.max_descriptor_set_storage_buffers == 0,
            r.max_per_stage_resources == 0,
            r.max_bound_descriptor_sets == 0,
            r.max_memory_allocation_count == 0,
            r.non_coherent_atom_size == 0,
    {
        let r = VulkanComputeLimits {
            max_workgroup_count: [0, 0, 0],
            max_workgroup_size: [0, 0, 0],
            max_workgroup_invocations: 0,
            max_storage_buffer_range: 0,
            max_per_stage_storage_buffers: 0,
            max_descriptor_set_storage_buffers: 0,
            max_per_stage_resources: 0,
            max_bound_descriptor_sets: 0,
            max_memory_allocation_count: 0,
            non_coherent_atom_size: 0,
        };
        assert(r.max_workgroup_count@ =~= seq![0u32, 0u32, 0u32]);
        assert(r.max_workgroup_size@ =~= seq![0u32, 0u32, 0u32]);
        r
    }
}

/// Driver-reported baseline capabilities of one physical device. Empty
/// `unsupported_reasons` does not promise per-buffer memory compatibility,
/// shader compilation or execution.
#[derive(Debug, Clone)]
pub struct VulkanDeviceCandidate {
    pub vendor_id: u32,
    pub device_id: u32,
    pub name: String,
    pub device_type: String,
    pub api_version: u32,
    pub driver_version: u32,
    /// `None` when the device does not provide the Vulkan 1.1 id properties.
    pub device_uuid: Option<[u8; 16]>,
    pub driver_uuid: Option<[u8; 16]>,
    pub robust_buffer_access: bool,
    pub queue_families: Vec<VulkanQueueFamilyInfo>,
    pub memory_types: Vec<VulkanMemoryTypeInfo>,
    pub limits: VulkanComputeLimits,
    pub unsupported_reasons: Vec<String>,
}

impl Default for VulkanDeviceCandidate {
    fn default() -> (r: Self)
        ensures
            r.vendor_id == 0 && r.device_id == 0 && r.api_version == 0 && r.driver_version == 0,
            r.name@ == Seq::<char>::empty() && r.device_type@ == Seq::<char>::empty(),
            r.device_uuid is None && r.driver_uuid is None,
            !r.robust_buffer_access,
            r.queue_families@ == Seq::<VulkanQueueFamilyInfo>::empty(),
            r.memory_types@ == Seq::<VulkanMemoryTypeInfo>::empty(),
            r.unsupported_reasons@ == Seq::<String>::empty(),
            r.limits.max_workgroup_invocations == 0 && r.limits.non_coherent_atom_size == 0,
    {
        VulkanDeviceCandidate {
            vendor_id: 0,
            device_id: 0,
            name: String::new(),
            device_type: String::new(),
            api_version: 0,
            driver_version: 0,
            device_uuid: None,
            driver_uuid: None,
            robust_buffer_access: false,
            queue_families: Vec::new(),
            memory_types: Vec::new(),
            limits: VulkanComputeLimits::default(),
            unsupported_reasons: Vec::new(),
        }
    }
}

/// The device a backend opened.
#[derive(Debug, Clone)]
pub struct VulkanDeviceInfo {
    pub vendor_id: u32,
    pub device_id: u32,
    pub name: String,
    pub device_type: String,
    pub api_version: u32,
    pub queue_family: u32,
    pub robust_buffer_access: bool,
    /// The device's own report; not a claim of guest Metal support.
    pub capabilities: VulkanDeviceCandidate,
}

/// The variant field of a packed Vulkan API version.
pub fn api_version_variant(version: u32) -> (r: u32)
    ensures
        r == version >> 29,
{
    version >> 29
}

/// Device-type names of integrated and discrete GPUs, the only ones served.
pub open spec fn spec_hardware_type(kind: Seq<char>) -> bool {
    kind == "INTEGRATED_GPU"@ || kind == "DISCRETE_GPU"@
}

pub fn hardware_type(kind: &str) -> (r: bool)
    ensures
        r == spec_hardware_type(kind@),
{
    str_eq(kind, "INTEGRATED_GPU") || str_eq(kind, "DISCRETE_GPU")
}

/// A queue family with at least one queue that supports compute.
pub open spec fn spec_compute_queue(f: VulkanQueueFamilyInfo) -> bool {
    f.queue_count > 0 && f.flags & QUEUE_COMPUTE != 0
}

/// The index of the first compute-capable queue family, if any.
pub fn compute_family(report: &VulkanDeviceCandidate) -> (r: Option<u32>)
    ensures
        match r {
            Some(index) => exists|i: int|
                0 <= i < report.queue_families@.len() && spec_compute_queue(
                    #[trigger] report.queue_families@[i],
                ) && report.queue_families@[i].index == index && forall|j: int|
                    0 <= j < i ==> !spec_compute_queue(#[trigger] report.queue_families@[j]),
            None => forall|i: int|
                0 <= i < report.queue_families@.len() ==> !spec_compute_queue(
                    #[trigger] report.queue_families@[i],
                ),
        },
{
    let families = &report.queue_families;
    let mut i: usize = 0;
    while i < families.len()
        invariant
            i <= families@.len(),
            families@ == report.queue_families@,
            forall|j: int| 0 <= j < i ==> !spec_compute_queue(#[trigger] families@[j]),
        decreases families@.len() - i,
    {
        let f = families[i];
        if f.queue_count > 0 && f.flags & QUEUE_COMPUTE != 0 {
            assert(spec_compute_queue(families@[i as int]));
            return Some(f.index);
        }
        i = i + 1;
    }
    None
}

/// Memory the host can map, with none of the optional features this backend
/// never enables (device-coherent, protected, lazily allocated).
pub open spec fn spec_host_memory_flags(flags: u32) -> bool {
    flags & MEMORY_HOST_VISIBLE != 0 && flags & (MEMORY_DEVICE_COHERENT_AMD | MEMORY_PROTECTED
        | MEMORY_LAZILY_ALLOCATED) == 0
}

pub fn host_memory_flags(flags: u32) -> (r: bool)
    ensures
        r == spec_host_memory_flags(flags),
{
    flags & MEMORY_HOST_VISIBLE != 0 && flags & (MEMORY_DEVICE_COHERENT_AMD | MEMORY_PROTECTED
        | MEMORY_LAZILY_ALLOCATED) == 0
}

/// `v` is `2^k` for some `k`.
pub open spec fn spec_power_of_two(v: u64) -> bool {
    exists|k: nat| k < 64 && v as nat == vstd::arithmetic::power2::pow2(k)
}

pub fn is_power_of_two(v: u64) -> (r: bool)
    ensures
        r == spec_power_of_two(v),
{
    let mut p: u64 = 1;
    let mut k: u32 = 0;
    proof {
        vstd::arithmetic::power2::lemma2_to64();
    }
    while k < 64
        invariant
            k <= 64,
            k < 64 ==> p as nat == vstd::arithmetic::power2::pow2(k as nat),
            forall|j: nat| j < k ==> v as nat != vstd::arithmetic::power2::pow2(j),
        decreases 64 - k,
    {
        if v == p {
            return true;
        }
        if k < 63 {
            proof {
                vstd::arithmetic::power2::lemma_pow2_unfold((k + 1) as nat);
                vstd::arithmetic::power2::lemma_pow2_strictly_increases((k + 1) as nat, 64);
                vstd::arithmetic::power2::lemma2_to64_rest();
            }
            p = p * 2;
        }
        k = k + 1;
    }
    false
}

/// `m` as a one-element list when `c` holds, else nothing.
pub open spec fn spec_opt(c: bool, m: Seq<char>) -> Seq<Seq<char>> {
    if c {
        seq![m]
    } else {
        Seq::empty()
    }
}

/// The texts of a list of strings.
pub open spec fn spec_texts(v: Seq<String>) -> Seq<Seq<char>> {
    v.map_values(|s: String| s@)
}

/// Some memory type is host-mappable without optional features and sits on a
/// heap that can hold one storage word.
pub open spec fn spec_has_host_memory(types: Seq<VulkanMemoryTypeInfo>) -> bool {
    exists|i: int|
        0 <= i < types.len() && spec_host_memory_flags(#[trigger] types[i].property_flags)
            && types[i].heap_size >= 4
}

/// A compute workgroup limit is zero.
pub open spec fn spec_workgroup_limits_zero(l: VulkanComputeLimits) -> bool {
    ||| l.max_workgroup_count@[0] == 0 || l.max_workgroup_count@[1] == 0 || l.max_workgroup_count@[2] == 0
    ||| l.max_workgroup_size@[0] == 0 || l.max_workgroup_size@[1] == 0 || l.max_workgroup_size@[2] == 0
    ||| l.max_workgroup_invocations == 0
}

/// The storage, descriptor or allocation limits cannot bind one storage word.
pub open spec fn spec_storage_limits_short(l: VulkanComputeLimits) -> bool {
    ||| l.max_storage_buffer_range < 4
    ||| l.max_per_stage_storage_buffers == 0
    ||| l.max_descriptor_set_storage_buffers == 0
    ||| l.max_per_stage_resources == 0
    ||| l.max_bound_descriptor_sets == 0
    ||| l.max_memory_allocation_count == 0
}

/// Every baseline requirement that device report `r` fails, in a fixed order;
/// `type_allowed` says whether its device type may serve.
pub open spec fn spec_baseline_rejections(r: VulkanDeviceCandidate, type_allowed: bool) -> Seq<Seq<char>> {
    spec_opt(
        !type_allowed,
        "device type "@ + r.device_type@
            + " is not an integrated/discrete GPU; CPU/virtual fallback denied"@,
    ) + spec_opt(
        r.api_version >> 29 != 0 || r.api_version < API_VERSION_1_1,
        "Vulkan 1.1 physical device required"@,
    ) + spec_opt(!r.robust_buffer_access, "robustBufferAccess is required"@) + spec_opt(
        forall|i: int|
            0 <= i < r.queue_families@.len() ==> !spec_compute_queue(#[trigger] r.queue_families@[i]),
        "no nonempty compute queue"@,
    ) + spec_opt(
        !spec_has_host_memory(r.memory_types@),
        "no feature-compatible HOST_VISIBLE memory heap large enough for a storage word"@,
    ) + spec_opt(
        spec_workgroup_limits_zero(r.limits),
        "compute workgroup limits cannot execute one invocation"@,
    ) + spec_opt(
        spec_storage_limits_short(r.limits),
        "storage/descriptor/allocation limits cannot bind one storage word"@,
    ) + spec_opt(
        !spec_power_of_two(r.limits.non_coherent_atom_size),
        "invalid nonCoherentAtomSize reported by driver"@,
    )
}

fn push_reason(reasons: &mut Vec<String>, cond: bool, msg: &str)
    ensures
        spec_texts(final(reasons)@) == spec_texts(old(reasons)@) + spec_opt(cond, msg@),
{
    if cond {
        let m = String::from_str(msg);
        reasons.push(m);
        assert(spec_texts(reasons@) =~= spec_texts(old(reasons)@) + spec_opt(cond, msg@));
    } else {
        assert(spec_texts(reasons@) =~= spec_texts(old(reasons)@) + spec_opt(cond, msg@));
    }
}

fn has_host_memory(types: &Vec<VulkanMemoryTypeInfo>) -> (r: bool)
    ensures
        r == spec_has_host_memory(types@),
{
    let mut i: usize = 0;
    while i < types.len()
        invariant
            i <= types@.len(),
            forall|j: int|
                0 <= j < i ==> !(spec_host_memory_flags(#[trigger] types@[j].property_flags)
                    && types@[j].heap_size >= 4),
        decreases types@.len() - i,
    {
        if host_memory_flags(types[i].property_flags) && types[i].heap_size >= 4 {
            return true;
        }
        i = i + 1;
    }
    false
}

/// Every baseline requirement that `report` fails, in a fixed order; an empty
/// list is the baseline a device must meet to be selected. `type_allowed`
/// says whether the report's device type may serve (see [`hardware_type`]).
pub fn baseline_rejections(report: &VulkanDeviceCandidate, type_allowed: bool) -> (r: Vec<String>)
    ensures
        spec_texts(r@) == spec_baseline_rejections(*report, type_allowed),
{
    let mut reasons: Vec<String> = Vec::new();
    let ghost mut expected: Seq<Seq<char>> = Seq::empty();
    assert(spec_texts(reasons@) =~= expected);
    if !type_allowed {
        let mut m = String::from_str("device type ");
        m.append(report.device_type.as_str());
        m.append(" is not an integrated/discrete GPU; CPU/virtual fallback denied");
        reasons.push(m);
    }
    proof {
        expected = spec_opt(
            !type_allowed,
            "device type "@ + report.device_type@
                + " is not an integrated/discrete GPU; CPU/virtual fallback denied"@,
        );
        assert(spec_texts(reasons@) =~= expected);
    }
    push_reason(
        &mut reasons,
        api_version_variant(report.api_version) != 0 || report.api_version < API_VERSION_1_1,
        "Vulkan 1.1 physical device required",
    );
    push_reason(&mut reasons, !report.robust_buffer_access, "robustBufferAccess is required");
    let family = compute_family(report);
    push_reason(&mut reasons, family.is_none(), "no nonempty compute queue");
    push_reason(
        &mut reasons,
        !has_host_memory(&report.memory_types),
        "no feature-compatible HOST_VISIBLE memory heap large enough for a storage word",
    );
    let l = &report.limits;
    push_reason(
        &mut reasons,
        l.max_workgroup_count[0] == 0 || l.max_workgroup_count[1] == 0 || l.max_workgroup_count[2]
            == 0 || l.max_workgroup_size[0] == 0 || l.max_workgroup_size[1] == 0
            || l.max_workgroup_size[2] == 0 || l.max_workgroup_invocations == 0,
        "compute workgroup limits cannot execute one invocation",
    );
    push_reason(
        &mut reasons,
        l.max_storage_buffer_range < 4 || l.max_per_stage_storage_buffers == 0
            || l.max_descriptor_set_storage_buffers == 0 || l.max_per_stage_resources == 0
            || l.max_bound_descriptor_sets == 0 || l.max_memory_allocation_count == 0,
        "storage/descriptor/allocation limits cannot bind one storage word",
    );
    push_reason(
        &mut reasons,
        !is_power_of_two(l.non_coherent_atom_size),
        "invalid nonCoherentAtomSize reported by driver",
    );
    proof {
        if family is Some {
            let i = choose|i: int|
                0 <= i < report.queue_families@.len() && spec_compute_queue(
                    #[trigger] report.queue_families@[i],
                ) && report.queue_families@[i].index == family->0 && forall|j: int|
                    0 <= j < i ==> !spec_compute_queue(#[trigger] report.queue_families@[j]);
            assert(spec_compute_queue(report.queue_families@[i]));
        }
        assert(spec_texts(reasons@) =~= spec_baseline_rejections(*report, type_allowed));
    }
    reasons
}

/// `parts` joined with `sep` between neighbours.
pub open spec fn spec_join(parts: Seq<Seq<char>>, sep: Seq<char>) -> Seq<char>
    decreases parts.len(),
{
    if parts.len() == 0 {
        Seq::empty()
    } else if parts.len() == 1 {
        parts[0]
    } else {
        spec_join(parts.drop_last(), sep) + sep + parts.last()
    }
}

/// `parts` joined with `sep` between neighbours.
pub fn join(parts: &Vec<String>, sep: &str) -> (r: String)
    ensures
        r@ == spec_join(spec_texts(parts@), sep@),
{
    let mut out = String::new();
    let mut i: usize = 0;
    while i < parts.len()
        invariant
            i <= parts@.len(),
            out@ == spec_join(spec_texts(parts@).take(i as int), sep@),
        decreases parts@.len() - i,
    {
        let ghost before = spec_texts(parts@).take(i as int);
        let ghost after = spec_texts(parts@).take(i + 1);
        assert(after.drop_last() =~= before);
        assert(after.last() == parts@[i as int]@);
        if i > 0 {
            out.append(sep);
        }
        out.append(parts[i].as_str());
        proof {
            if i == 0 {
                assert(out@ =~= after[0]);
            } else {
                assert(out@ =~= spec_join(before, sep@) + sep@ + after.last());
            }
        }
        i = i + 1;
    }
    assert(spec_texts(parts@).take(parts@.len() as int) =~= spec_texts(parts@));
    out
}

/// Report `r` has the selector's ids and, where one is given, its device UUID.
pub open spec fn spec_selects(r: VulkanDeviceCandidate, sel: VulkanDeviceSelector, uuid: Option<[u8; 16]>) -> bool {
    &&& r.vendor_id == sel.vendor_id
    &&& r.device_id == sel.device_id
    &&& match uuid {
        None => true,
        Some(id) => r.device_uuid matches Some(d) && d@ == id@,
    }
}

/// How many of the first `n` reports the selection matches.
pub open spec fn spec_match_count(
    reports: Seq<VulkanDeviceCandidate>,
    sel: VulkanDeviceSelector,
    uuid: Option<[u8; 16]>,
    n: int,
) -> nat
    decreases n,
{
    if n <= 0 {
        0
    } else {
        spec_match_count(reports, sel, uuid, n - 1) + if spec_selects(reports[n - 1], sel, uuid) {
            1nat
        } else {
            0nat
        }
    }
}

/// Index of the first of the first `n` reports that the selection matches, or -1.
pub open spec fn spec_first_match(
    reports: Seq<VulkanDeviceCandidate>,
    sel: VulkanDeviceSelector,
    uuid: Option<[u8; 16]>,
    n: int,
) -> int
    decreases n,
{
    if n <= 0 {
        -1
    } else if spec_first_match(reports, sel, uuid, n - 1) >= 0 {
        spec_first_match(reports, sel, uuid, n - 1)
    } else if spec_selects(reports[n - 1], sel, uuid) {
        n - 1
    } else {
        -1
    }
}

pub open spec fn spec_not_found_message() -> Seq<char> {
    "exact Vulkan device IDs/UUID not found; fallback denied; enumerate_vulkan_devices reports available devices"@
}

pub open spec fn spec_ambiguous_message() -> Seq<char> {
    "device selector is ambiguous; select a unique deviceUUID from enumerate_vulkan_devices (duplicate UUID reports are also rejected)"@
}

/// Why the one matching device `r` cannot serve.
pub open spec fn spec_unsupported_message(r: VulkanDeviceCandidate) -> Seq<char> {
    "selected Vulkan device "@ + r.name@ + " unsupported: "@ + spec_join(
        spec_texts(r.unsupported_reasons@),
        "; "@,
    )
}

fn same_uuid(a: &[u8; 16], b: &[u8; 16]) -> (r: bool)
    ensures
        r == (a@ == b@),
{
    let mut i: usize = 0;
    while i < 16
        invariant
            i <= 16,
            a@.len() == 16 && b@.len() == 16,
            forall|k: int| 0 <= k < i ==> a@[k] == b@[k],
        decreases 16 - i,
    {
        if a[i] != b[i] {
            return false;
        }
        i = i + 1;
    }
    assert(a@ =~= b@);
    true
}

fn selects(r: &VulkanDeviceCandidate, selector: VulkanDeviceSelector, uuid: &Option<[u8; 16]>) -> (b: bool)
    ensures
        b == spec_selects(*r, selector, *uuid),
{
    if r.vendor_id != selector.vendor_id || r.device_id != selector.device_id {
        return false;
    }
    match uuid {
        None => true,
        Some(id) => match &r.device_uuid {
            Some(d) => same_uuid(d, id),
            None => false,
        },
    }
}

/// The index of the one report that the selector (and the UUID, where one is
/// given) matches. No match, several matches (duplicate UUID reports too), and
/// a match with unsupported reasons are each refused with its own message.
pub fn select_candidate(
    reports: &[VulkanDeviceCandidate],
    selector: VulkanDeviceSelector,
    uuid: Option<[u8; 16]>,
) -> (r: Result<usize, ComputeError>)
    ensures
        ({
            let n = reports@.len() as int;
            let count = spec_match_count(reports@, selector, uuid, n);
            let first = spec_first_match(reports@, selector, uuid, n);
            if count == 0 {
                r matches Err(ComputeError::Unsupported(m)) && m@ == spec_not_found_message()
            } else if count == 1 {
                if reports@[first].unsupported_reasons@.len() == 0 {
                    r == Ok::<usize, ComputeError>(first as usize)
                } else {
                    r matches Err(ComputeError::Unsupported(m)) && m@ == spec_unsupported_message(
                        reports@[first],
                    )
                }
            } else {
                r matches Err(ComputeError::Unsupported(m)) && m@ == spec_ambiguous_message()
            }
        }),
{
    let mut count: usize = 0;
    let mut first: usize = 0;
    let mut i: usize = 0;
    while i < reports.len()
        invariant
            i <= reports@.len(),
            count == spec_match_count(reports@, selector, uuid, i as int),
            count <= i,
            count > 0 ==> first as int == spec_first_match(reports@, selector, uuid, i as int),
            count == 0 ==> spec_first_match(reports@, selector, uuid, i as int) == -1,
            spec_first_match(reports@, selector, uuid, i as int) < i,
        decreases reports@.len() - i,
    {
        if selects(&reports[i], selector, &uuid) {
            if count == 0 {
                first = i;
            }
            count = count + 1;
        }
        i = i + 1;
    }
    if count == 0 {
        return Err(ComputeError::Unsupported(String::from_str(
            "exact Vulkan device IDs/UUID not found; fallback denied; enumerate_vulkan_devices reports available devices",
        )));
    }
    if count > 1 {
        return Err(ComputeError::Unsupported(String::from_str(
            "device selector is ambiguous; select a unique deviceUUID from enumerate_vulkan_devices (duplicate UUID reports are also rejected)",
        )));
    }
    let chosen = &reports[first];
    if chosen.unsupported_reasons.len() == 0 {
        return Ok(first);
    }
    let mut m = String::from_str("selected Vulkan device ");
    m.append(chosen.name.as_str());
    m.append(" unsupported: ");
    let reasons = join(&chosen.unsupported_reasons, "; ");
    m.append(reasons.as_str());
    Err(ComputeError::Unsupported(m))
}

/// One memory type of a device: its property flags and its heap.
#[derive(Debug, Clone, Copy, PartialEq, Eq, Structural)]
pub struct HostMemoryType {
    pub property_flags: u32,
    pub heap_index: u32,
}

/// A device's memory properties as the driver reports them: the first
/// `memory_type_count` types and `memory_heap_count` heap sizes are meaningful.
#[derive(Debug, Clone, Copy)]
pub struct HostMemoryProperties {
    pub memory_type_count: u32,
    pub memory_types: [HostMemoryType; 32],
    pub memory_heap_count: u32,
    pub memory_heap_sizes: [u64; 16],
    pub memory_heap_flags: [u32; 16],
}

/// The report of memory type `i`: its flags and its heap's index, size and flags.
pub open spec fn spec_memory_report(m: HostMemoryProperties, i: int) -> VulkanMemoryTypeInfo {
    VulkanMemoryTypeInfo {
        index: i as u32,
        property_flags: m.memory_types@[i].property_flags,
        heap_index: m.memory_types@[i].heap_index,
        heap_size: m.memory_heap_sizes@[m.memory_types@[i].heap_index as int],
        heap_flags: m.memory_heap_flags@[m.memory_types@[i].heap_index as int],
    }
}

/// Some memory type of the first `memory_type_count` names a heap beyond the
/// reported ones.
pub open spec fn spec_missing_heap(m: HostMemoryProperties) -> bool {
    exists|i: int| 0 <= i < m.memory_type_count && #[trigger] m.memory_types@[i].heap_index >= m.memory_heap_count
}

/// The reports of a device's memory types, each with its heap's size and
/// flags. Counts beyond the Vulkan arrays, and a type naming a missing heap,
/// are refused.
pub fn memory_type_reports(memory: &HostMemoryProperties) -> (r: Result<Vec<VulkanMemoryTypeInfo>, ComputeError>)
    ensures
        if memory.memory_type_count > MAX_MEMORY_TYPES || memory.memory_heap_count > MAX_MEMORY_HEAPS {
            r matches Err(ComputeError::Unsupported(m)) && m@
                == "driver memory property counts exceed Vulkan arrays"@
        } else if spec_missing_heap(*memory) {
            r matches Err(ComputeError::Unsupported(m)) && m@ == "driver memory type references missing heap"@
        } else {
            r matches Ok(v) && v@.len() == memory.memory_type_count && forall|i: int|
                0 <= i < v@.len() ==> #[trigger] v@[i] == spec_memory_report(*memory, i)
        },
{
    if memory.memory_type_count > MAX_MEMORY_TYPES || memory.memory_heap_count > MAX_MEMORY_HEAPS {
        return Err(ComputeError::Unsupported(String::from_str(
            "driver memory property counts exceed Vulkan arrays",
        )));
    }
    let mut types: Vec<VulkanMemoryTypeInfo> = Vec::new();
    let mut index: u32 = 0;
    while index < memory.memory_type_count
        invariant
            memory.memory_type_count <= 32,
            memory.memory_heap_count <= 16,
            index <= memory.memory_type_count,
            types@.len() == index,
            forall|i: int| 0 <= i < index ==> #[trigger] types@[i] == spec_memory_report(*memory, i),
            forall|i: int| 0 <= i < index ==> #[trigger] memory.memory_types@[i].heap_index < memory.memory_heap_count,
        decreases memory.memory_type_count - index,
    {
        let kind = memory.memory_types[index as usize];
        if kind.heap_index >= memory.memory_heap_count {
            assert(memory.memory_types@[index as int].heap_index >= memory.memory_heap_count);
            return Err(ComputeError::Unsupported(String::from_str(
                "driver memory type references missing heap",
            )));
        }
        let heap = kind.heap_index as usize;
        types.push(VulkanMemoryTypeInfo {
            index,
            property_flags: kind.property_flags,
            heap_index: kind.heap_index,
            heap_size: memory.memory_heap_sizes[heap],
            heap_flags: memory.memory_heap_flags[heap],
        });
        index = index + 1;
    }
    assert(!spec_missing_heap(*memory));
    Ok(types)
}

/// Preference of a host-visible memory type: coherent first, then cached.
pub open spec fn spec_memory_rank(flags: u32) -> int {
    (if flags & MEMORY_HOST_COHERENT != 0 { 2int } else { 0int }) + (if flags & MEMORY_HOST_CACHED
        != 0 { 1int } else { 0int })
}

/// Memory type `i` may hold a buffer of `size` bytes whose allowed types are
/// the bits of `bits`.
pub open spec fn spec_memory_fits(m: HostMemoryProperties, bits: u32, size: u64, i: int) -> bool {
    &&& 0 <= i < m.memory_type_count
    &&& i < 32
    &&& bits & (1u32 << (i as u32)) != 0
    &&& spec_host_memory_flags(m.memory_types@[i].property_flags)
    &&& m.memory_types@[i].heap_index < m.memory_heap_count
    &&& m.memory_types@[i].heap_index < 16
    &&& size <= m.memory_heap_sizes@[m.memory_types@[i].heap_index as int]
}

/// Type `i` fits and no fitting type is preferred to it; among equals the
/// lowest index wins.
pub open spec fn spec_best_memory(m: HostMemoryProperties, bits: u32, size: u64, i: int) -> bool {
    &&& spec_memory_fits(m, bits, size, i)
    &&& forall|j: int|
        #![trigger spec_memory_fits(m, bits, size, j)]
        spec_memory_fits(m, bits, size, j) ==> spec_memory_rank(m.memory_types@[j].property_flags)
            < spec_memory_rank(m.memory_types@[i].property_flags) || (spec_memory_rank(
            m.memory_types@[j].property_flags,
        ) == spec_memory_rank(m.memory_types@[i].property_flags) && i <= j)
}

pub open spec fn spec_memory_counts_message() -> Seq<char> {
    "invalid Vulkan allocation size or memory property counts"@
}

pub open spec fn spec_no_memory_message(bits: u32, size: u64) -> Seq<char> {
    "no compatible HOST_VISIBLE memory: memoryTypeBits="@ + spec_hex_word(bits)
        + ", allocation_size="@ + spec_decimal(size as nat)
        + "; device-local-only memory is not host mappable; protected/device-coherent memory features are not enabled"@
}

/// The memory type for a buffer of `size` bytes whose allowed memory types are
/// the bits of `bits`, and whether it is host-coherent: of the host-visible
/// types without optional features whose heap can hold the buffer, a coherent
/// one before a non-coherent, a cached one before an uncached, the lowest index
/// among equals.
pub fn host_memory_type(memory: &HostMemoryProperties, bits: u32, size: u64) -> (r: Result<(u32, bool), ComputeError>)
    ensures
        if size == 0 || memory.memory_type_count > MAX_MEMORY_TYPES || memory.memory_heap_count
            > MAX_MEMORY_HEAPS {
            r matches Err(ComputeError::Unsupported(m)) && m@ == spec_memory_counts_message()
        } else if exists|i: int| spec_memory_fits(*memory, bits, size, i) {
            r matches Ok((i, coherent)) && spec_best_memory(*memory, bits, size, i as int) && coherent
                == (memory.memory_types@[i as int].property_flags & MEMORY_HOST_COHERENT != 0)
        } else {
            r matches Err(ComputeError::Unsupported(m)) && m@ == spec_no_memory_message(bits, size)
        },
{
    if size == 0 || memory.memory_type_count > MAX_MEMORY_TYPES || memory.memory_heap_count
        > MAX_MEMORY_HEAPS {
        return Err(ComputeError::Unsupported(String::from_str(
            "invalid Vulkan allocation size or memory property counts",
        )));
    }
    let ghost m = *memory;
    let mut best: Option<(u32, bool, u32)> = None;
    let mut index: u32 = 0;
    while index < memory.memory_type_count
        invariant
            m == *memory,
            memory.memory_type_count <= 32,
            memory.memory_heap_count <= 16,
            index <= memory.memory_type_count,
            match best {
                None => forall|j: int| 0 <= j < index ==> !spec_memory_fits(m, bits, size, j),
                Some((bi, bc, br)) => {
                    &&& bi < index
                    &&& spec_memory_fits(m, bits, size, bi as int)
                    &&& br == spec_memory_rank(m.memory_types@[bi as int].property_flags)
                    &&& bc == (m.memory_types@[bi as int].property_flags & MEMORY_HOST_COHERENT != 0)
                    &&& forall|j: int|
                        0 <= j < index && spec_memory_fits(m, bits, size, j) ==> spec_memory_rank(
                            m.memory_types@[j].property_flags,
                        ) < br || (spec_memory_rank(m.memory_types@[j].property_flags) == br && bi
                            <= j)
                },
            },
        decreases memory.memory_type_count - index,
    {
        let kind = memory.memory_types[index as usize];
        let fits = bits & (1u32 << index) != 0 && host_memory_flags(kind.property_flags)
            && kind.heap_index < memory.memory_heap_count
            && size <= memory.memory_heap_sizes[kind.heap_index as usize];
        assert(fits == spec_memory_fits(m, bits, size, index as int));
        if fits {
            let coherent = kind.property_flags & MEMORY_HOST_COHERENT != 0;
            let cached = kind.property_flags & MEMORY_HOST_CACHED != 0;
            let rank: u32 = (if coherent { 2 } else { 0 }) + (if cached { 1 } else { 0 });
            let better = match best {
                None => true,
                Some((_, _, br)) => rank > br,
            };
            if better {
                best = Some((index, coherent, rank));
            }
        }
        index = index + 1;
    }
    match best {
        Some((bi, bc, _)) => {
            assert forall|j: int| #[trigger] spec_memory_fits(m, bits, size, j) implies spec_memory_rank(
                m.memory_types@[j].property_flags,
            ) < spec_memory_rank(m.memory_types@[bi as int].property_flags) || (spec_memory_rank(
                m.memory_types@[j].property_flags,
            ) == spec_memory_rank(m.memory_types@[bi as int].property_flags) && bi <= j) by {
                assert(0 <= j < index);
            }
            Ok((bi, bc))
        },
        None => {
            assert(!exists|i: int| spec_memory_fits(m, bits, size, i)) by {
                if exists|i: int| spec_memory_fits(m, bits, size, i) {
                    let i = choose|i: int| spec_memory_fits(m, bits, size, i);
                    assert(0 <= i < index);
                }
            }
            let mut msg = String::from_str("no compatible HOST_VISIBLE memory: memoryTypeBits=");
            msg.append(hex_word(bits).as_str());
            msg.append(", allocation_size=");
            msg.append(decimal_string(size).as_str());
            msg.append(
                "; device-local-only memory is not host mappable; protected/device-coherent memory features are not enabled",
            );
            Err(ComputeError::Unsupported(msg))
        },
    }
}

/// A workgroup count or size of the dispatch exceeds the device's limit.
pub open spec fn spec_dimensions_exceed(l: VulkanComputeLimits, size: Seq<u32>, groups: Seq<u32>) -> bool {
    exists|i: int| 0 <= i < 3 && (groups[i] > l.max_workgroup_count@[i] || size[i] > l.max_workgroup_size@[i])
}

/// Dimension `j` of the dispatch exceeds its workgroup-count or -size limit.
pub open spec fn spec_dimension_exceeds(counts: Seq<u32>, sizes: Seq<u32>, size: Seq<u32>, groups: Seq<u32>, j: int) -> bool {
    groups[j] > counts[j] || size[j] > sizes[j]
}

/// The dispatch's invocations per workgroup, number of storage bindings or
/// size of a binding exceed the device's limits.
pub open spec fn spec_resources_exceed(l: VulkanComputeLimits, size: Seq<u32>, b: Seq<BufferBinding>) -> bool {
    ||| size[0] * size[1] * size[2] > l.max_workgroup_invocations
    ||| b.len() > l.max_per_stage_storage_buffers
    ||| b.len() > l.max_descriptor_set_storage_buffers
    ||| b.len() > l.max_per_stage_resources
    ||| b.len() > l.max_memory_allocation_count
    ||| l.max_bound_descriptor_sets == 0
    ||| exists|k: int| 0 <= k < b.len() && #[trigger] b[k].size > l.max_storage_buffer_range
}

/// Whether a dispatch of `groups` workgroups of `descriptor` fits the device's
/// compute, descriptor and storage limits.
pub fn validate_limits(
    limits: &VulkanComputeLimits,
    descriptor: &ComputePipelineDescriptor,
    groups: [u32; 3],
) -> (r: Result<(), ComputeError>)
    ensures
        if spec_dimensions_exceed(*limits, descriptor.workgroup_size@, groups@) {
            r matches Err(ComputeError::Unsupported(m)) && m@
                == "compute dimensions exceed device limits"@
        } else if spec_resources_exceed(*limits, descriptor.workgroup_size@, descriptor.buffer_bindings@) {
            r matches Err(ComputeError::Unsupported(m)) && m@
                == "compute invocation/storage limits exceeded"@
        } else {
            r is Ok
        },
{
    let size = descriptor.workgroup_size;
    let counts = limits.max_workgroup_count;
    let sizes = limits.max_workgroup_size;
    let mut i: usize = 0;
    while i < 3
        invariant
            i <= 3,
            size@ == descriptor.workgroup_size@,
            counts@ == limits.max_workgroup_count@,
            sizes@ == limits.max_workgroup_size@,
            forall|j: int| 0 <= j < i ==> !#[trigger] spec_dimension_exceeds(counts@, sizes@, size@, groups@, j),
        decreases 3 - i,
    {
        if groups[i] > counts[i] || size[i] > sizes[i] {
            assert(spec_dimension_exceeds(counts@, sizes@, size@, groups@, i as int));
            return Err(ComputeError::Unsupported(String::from_str(
                "compute dimensions exceed device limits",
            )));
        }
        assert(!spec_dimension_exceeds(counts@, sizes@, size@, groups@, i as int));
        i = i + 1;
    }
    assert(!spec_dimensions_exceed(*limits, descriptor.workgroup_size@, groups@)) by {
        if spec_dimensions_exceed(*limits, descriptor.workgroup_size@, groups@) {
            let k = choose|k: int| 0 <= k < 3 && (groups@[k] > limits.max_workgroup_count@[k]
                || descriptor.workgroup_size@[k] > limits.max_workgroup_size@[k]);
            assert(spec_dimension_exceeds(counts@, sizes@, size@, groups@, k));
        }
    }
    let (a, b, c) = (size[0], size[1], size[2]);
    assert((a as u64) * (b as u64) <= 0xffff_fffe_0000_0001u64) by (nonlinear_arith)
        requires
            a <= 0xffff_ffffu32,
            b <= 0xffff_ffffu32,
    ;
    let ab: u64 = (a as u64) * (b as u64);
    assert((ab as u128) * (c as u128) <= 0xffff_fffe_0000_0001u128 * 0xffff_ffffu128) by (nonlinear_arith)
        requires
            ab <= 0xffff_fffe_0000_0001u64,
            c <= 0xffff_ffffu32,
    ;
    let invocations: u128 = (ab as u128) * (c as u128);
    assert(invocations == size@[0] * size@[1] * size@[2]);
    let n = descriptor.buffer_bindings.len();
    let mut too_large = false;
    let mut k: usize = 0;
    while k < n
        invariant
            k <= n,
            n == descriptor.buffer_bindings@.len(),
            too_large == exists|j: int|
                0 <= j < k && #[trigger] descriptor.buffer_bindings@[j].size
                    > limits.max_storage_buffer_range,
        decreases n - k,
    {
        if descriptor.buffer_bindings[k].size > limits.max_storage_buffer_range as u64 {
            too_large = true;
        }
        k = k + 1;
    }
    if invocations > limits.max_workgroup_invocations as u128 || n
        > limits.max_per_stage_storage_buffers as usize || n
        > limits.max_descriptor_set_storage_buffers as usize || n
        > limits.max_per_stage_resources as usize || n > limits.max_memory_allocation_count as usize
        || limits.max_bound_descriptor_sets == 0 || too_large {
        return Err(ComputeError::Unsupported(String::from_str(
            "compute invocation/storage limits exceeded",
        )));
    }
    Ok(())
}

/// The storage bindings that a shader declares are, as sets, those of the
/// pipeline's descriptor.
pub open spec fn spec_same_bindings(p: Set<u32>, d: Seq<BufferBinding>) -> bool {
    p == spec_declared_set(d)
}

/// The set of bindings `d` declares.
pub open spec fn spec_declared_set(d: Seq<BufferBinding>) -> Set<u32> {
    Set::new(|x: u32| spec_declares(d, x))
}

/// What the first-match and match-count scans say of the first `n` reports.
pub proof fn lemma_match_scan(
    reports: Seq<VulkanDeviceCandidate>,
    sel: VulkanDeviceSelector,
    uuid: Option<[u8; 16]>,
    n: int,
)
    requires
        0 <= n <= reports.len(),
    ensures
        (spec_match_count(reports, sel, uuid, n) == 0) == (spec_first_match(reports, sel, uuid, n) == -1),
        spec_first_match(reports, sel, uuid, n) != -1 ==> {
            let f = spec_first_match(reports, sel, uuid, n);
            0 <= f < n && spec_selects(reports[f], sel, uuid)
        },
        forall|i: int|
            0 <= i < n && #[trigger] spec_selects(reports[i], sel, uuid) && i != spec_first_match(
                reports,
                sel,
                uuid,
                n,
            ) ==> spec_match_count(reports, sel, uuid, n) >= 2,
    decreases n,
{
    if n > 0 {
        lemma_match_scan(reports, sel, uuid, n - 1);
        assert forall|i: int|
            0 <= i < n && #[trigger] spec_selects(reports[i], sel, uuid) && i != spec_first_match(
                reports,
                sel,
                uuid,
                n,
            ) implies spec_match_count(reports, sel, uuid, n) >= 2 by {
            if i == n - 1 {
                assert(spec_first_match(reports, sel, uuid, n - 1) >= 0);
            } else {
                assert(spec_first_match(reports, sel, uuid, n - 1) >= 0);
                if i != spec_first_match(reports, sel, uuid, n - 1) {
                } else {
                    assert(spec_first_match(reports, sel, uuid, n) == spec_first_match(reports, sel, uuid, n - 1));
                }
            }
        }
    }
}

/// A selection that succeeds names the one report that the selector (its
/// ids and, where given, the UUID) matches: no other report matches it.
pub proof fn law_selection_is_exact(
    reports: Seq<VulkanDeviceCandidate>,
    sel: VulkanDeviceSelector,
    uuid: Option<[u8; 16]>,
)
    requires
        spec_match_count(reports, sel, uuid, reports.len() as int) == 1,
    ensures
        ({
            let f = spec_first_match(reports, sel, uuid, reports.len() as int);
            &&& 0 <= f < reports.len()
            &&& spec_selects(reports[f], sel, uuid)
            &&& forall|i: int| 0 <= i < reports.len() && spec_selects(#[trigger] reports[i], sel, uuid) ==> i == f
        }),
{
    lemma_match_scan(reports, sel, uuid, reports.len() as int);
    let f = spec_first_match(reports, sel, uuid, reports.len() as int);
    assert forall|i: int| 0 <= i < reports.len() && spec_selects(#[trigger] reports[i], sel, uuid) implies i == f by {
        if i != f {
            assert(spec_selects(reports[i], sel, uuid));
        }
    }
}

/// A device whose type is not an integrated or discrete GPU always carries an
/// unsupported reason, the first one naming its type, so it is never selected.
pub proof fn law_non_hardware_type_rejected(r: VulkanDeviceCandidate)
    requires
        !spec_hardware_type(r.device_type@),
    ensures
        spec_baseline_rejections(r, spec_hardware_type(r.device_type@)).len() >= 1,
        spec_baseline_rejections(r, spec_hardware_type(r.device_type@))[0] == "device type "@
            + r.device_type@ + " is not an integrated/discrete GPU; CPU/virtual fallback denied"@,
{
}

/// Some binding of `d` has number `x`.
pub open spec fn spec_declares(d: Seq<BufferBinding>, x: u32) -> bool {
    exists|k: int| 0 <= k < d.len() && d[k].binding == x
}

/// The bindings among the first `k` of `d`.
pub open spec fn spec_declared_prefix(d: Seq<BufferBinding>, k: int) -> Set<u32> {
    Set::new(|x: u32| exists|j: int| 0 <= j < k && d[j].binding == x)
}

/// Whether the set `p` is exactly the set of bindings `d` declares.
fn same_binding_set(p: &BTreeSet<u32>, d: &Vec<BufferBinding>) -> (r: bool)
    ensures
        r == spec_same_bindings(p@, d@),
{
    let mut declared: BTreeSet<u32> = BTreeSet::new();
    let mut all_in = true;
    let mut k: usize = 0;
    assert(declared@ =~= spec_declared_prefix(d@, 0));
    while k < d.len()
        invariant
            k <= d@.len(),
            declared@ == spec_declared_prefix(d@, k as int),
            all_in == (forall|j: int| 0 <= j < k ==> p@.contains(#[trigger] d@[j].binding)),
        decreases d@.len() - k,
    {
        let b = d[k].binding;
        if !p.contains(&b) {
            all_in = false;
        }
        declared.insert(b);
        proof {
            assert(declared@ =~= spec_declared_prefix(d@, k + 1)) by {
                assert forall|x: u32| spec_declared_prefix(d@, k + 1).contains(x) implies declared@.contains(x) by {
                    let j = choose|j: int| 0 <= j < k + 1 && d@[j].binding == x;
                    if j < k {
                        assert(spec_declared_prefix(d@, k as int).contains(x));
                    }
                }
            }
        }
        k = k + 1;
    }
    let same_len = declared.len() == p.len();
    proof {
        let pi = vstd::std_specs::iter::IteratorSpec::remaining(&vstd::std_specs::btree::spec_btree_keys_iter(p));
        let di = vstd::std_specs::iter::IteratorSpec::remaining(&vstd::std_specs::btree::spec_btree_keys_iter(&declared));
        assert(pi.unref().to_set() == p@);
        assert(di.unref().to_set() == declared@);
        assert(p@.finite());
        assert(declared@.finite());
        assert(declared@ == spec_declared_set(d@)) by {
            assert(declared@ =~= spec_declared_set(d@));
        }
        if all_in {
            assert(declared@.subset_of(p@)) by {
                assert forall|x: u32| declared@.contains(x) implies p@.contains(x) by {
                    let j = choose|j: int| 0 <= j < d@.len() && d@[j].binding == x;
                    assert(p@.contains(d@[j].binding));
                }
            }
            if same_len {
                vstd::set_lib::lemma_subset_equality(declared@, p@);
            }
        }
        if p@ == spec_declared_set(d@) {
            assert forall|j: int| 0 <= j < d@.len() implies p@.contains(#[trigger] d@[j].binding) by {
                assert(spec_declared_set(d@).contains(d@[j].binding));
            }
        }
    }
    all_in && same_len
}

/// A reflected shader agrees with the pipeline descriptor it runs under: the
/// same LocalSize as the descriptor's workgroup size, and the same set of
/// storage bindings.
pub fn check_shader_contract(profile: &ShaderProfile, descriptor: &ComputePipelineDescriptor) -> (r: Result<(), ComputeError>)
    ensures
        if profile.local_size@ != descriptor.workgroup_size@ {
            r matches Err(ComputeError::Unsupported(m)) && m@
                == "descriptor workgroup size differs from SPIR-V LocalSize"@
        } else if !spec_same_bindings(profile.bindings@, descriptor.buffer_bindings@) {
            r matches Err(ComputeError::Unsupported(m)) && m@
                == "descriptor bindings differ from SPIR-V storage variables"@
        } else {
            r is Ok
        },
{
    if profile.local_size[0] != descriptor.workgroup_size[0] || profile.local_size[1]
        != descriptor.workgroup_size[1] || profile.local_size[2] != descriptor.workgroup_size[2] {
        return Err(ComputeError::Unsupported(String::from_str(
            "descriptor workgroup size differs from SPIR-V LocalSize",
        )));
    }
    assert(profile.local_size@ =~= descriptor.workgroup_size@);
    let ok = same_binding_set(&profile.bindings, &descriptor.buffer_bindings);
    if !ok {
        return Err(ComputeError::Unsupported(String::from_str(
            "descriptor bindings differ from SPIR-V storage variables",
        )));
    }
    Ok(())
}

/// Longest fence wait a backend accepts, in nanoseconds.
pub const MAX_FENCE_TIMEOUT_NANOS: u128 = 5_000_000_000;

/// A backend is asked for with nonzero vendor and device ids and a fence
/// timeout in `(0, 5 s]`.
pub fn validate_backend_request(selector: VulkanDeviceSelector, fence_timeout_nanos: u128) -> (r: Result<(), ComputeError>)
    ensures
        if selector.vendor_id == 0 || selector.device_id == 0 || fence_timeout_nanos == 0
            || fence_timeout_nanos > MAX_FENCE_TIMEOUT_NANOS {
            r matches Err(ComputeError::Unsupported(m)) && m@
                == "explicit nonzero device IDs and fence timeout in (0, 5s] required"@
        } else {
            r is Ok
        },
{
    if selector.vendor_id == 0 || selector.device_id == 0 || fence_timeout_nanos == 0
        || fence_timeout_nanos > MAX_FENCE_TIMEOUT_NANOS {
        return Err(ComputeError::Unsupported(String::from_str(
            "explicit nonzero device IDs and fence timeout in (0, 5s] required",
        )));
    }
    Ok(())
}


/// What identifies a compiled native pipeline: the shader's words, its entry
/// point and the ordered binding numbers of its storage views. Caller shader
/// ids are not part of it.
#[derive(Debug, Clone)]
pub struct PipelineKey {
    pub words: Vec<u32>,
    pub entry: String,
    pub bindings: Vec<u32>,
}

/// The binding numbers of storage views, in order.
pub open spec fn spec_view_bindings(views: Seq<(u32, Vec<u8>)>) -> Seq<u32> {
    views.map_values(|v: (u32, Vec<u8>)| v.0)
}

fn same_words(a: &[u32], b: &[u32]) -> (r: bool)
    ensures
        r == (a@ == b@),
{
    if a.len() != b.len() {
        return false;
    }
    let mut i: usize = 0;
    while i < a.len()
        invariant
            i <= a@.len(),
            a@.len() == b@.len(),
            forall|k: int| 0 <= k < i ==> a@[k] == b@[k],
        decreases a@.len() - i,
    {
        if a[i] != b[i] {
            return false;
        }
        i = i + 1;
    }
    assert(a@ =~= b@);
    true
}

impl PipelineKey {
    /// The key of a pipeline built from `words`, `entry` and `views`.
    pub fn new(words: &[u32], entry: &str, views: &[(u32, Vec<u8>)]) -> (r: Self)
        ensures
            r.words@ == words@,
            r.entry@ == entry@,
            r.bindings@ == spec_view_bindings(views@),
    {
        let mut w: Vec<u32> = Vec::new();
        let mut i: usize = 0;
        while i < words.len()
            invariant
                i <= words@.len(),
                w@ == words@.subrange(0, i as int),
            decreases words@.len() - i,
        {
            w.push(words[i]);
            i = i + 1;
        }
        assert(w@ =~= words@);
        let mut b: Vec<u32> = Vec::new();
        let mut j: usize = 0;
        while j < views.len()
            invariant
                j <= views@.len(),
                b@ == spec_view_bindings(views@.subrange(0, j as int)),
            decreases views@.len() - j,
        {
            b.push(views[j].0);
            assert(spec_view_bindings(views@.subrange(0, j + 1)) =~= spec_view_bindings(
                views@.subrange(0, j as int),
            ).push(views@[j as int].0));
            j = j + 1;
        }
        assert(views@.subrange(0, views@.len() as int) =~= views@);
        PipelineKey { words: w, entry: String::from_str(entry), bindings: b }
    }

    /// Whether a pipeline with this key serves `words`, `entry` and `views`:
    /// the same words, the same entry point and the same binding numbers in the
    /// same order.
    pub fn matches(&self, words: &[u32], entry: &str, views: &[(u32, Vec<u8>)]) -> (r: bool)
        ensures
            r == (self.words@ == words@ && self.entry@ == entry@ && self.bindings@ == spec_view_bindings(
                views@,
            )),
    {
        if !same_words(self.words.as_slice(), words) || !str_eq(self.entry.as_str(), entry) {
            return false;
        }
        if self.bindings.len() != views.len() {
            return false;
        }
        let mut i: usize = 0;
        while i < views.len()
            invariant
                i <= views@.len(),
                self.bindings@.len() == views@.len(),
                forall|k: int| 0 <= k < i ==> self.bindings@[k] == views@[k].0,
            decreases views@.len() - i,
        {
            if self.bindings[i] != views[i].0 {
                assert(spec_view_bindings(views@)[i as int] == views@[i as int].0);
                return false;
            }
            i = i + 1;
        }
        assert(self.bindings@ =~= spec_view_bindings(views@));
        true
    }
}


} // verus!
