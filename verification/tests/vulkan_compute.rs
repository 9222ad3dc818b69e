use nextcore_gpu::compute::{BufferBinding, ComputePipelineDescriptor, ComputeShader};
use nextcore_gpu::spirv::{inspect_module, inspect_spirv, SpirvFault};
use nextcore_gpu::text::hex_word;
use nextcore_gpu::vulkan_compute::{
    baseline_rejections, check_shader_contract, compute_family, hardware_type,
    host_memory_type, is_power_of_two, join, memory_type_reports, select_candidate, validate_backend_request,
    validate_limits, HostMemoryProperties, HostMemoryType, VulkanComputeLimits,
    VulkanDeviceCandidate, VulkanDeviceSelector, VulkanMemoryTypeInfo, VulkanQueueFamilyInfo,
    PipelineKey, API_VERSION_1_0, API_VERSION_1_1, MEMORY_DEVICE_COHERENT_AMD, MEMORY_DEVICE_LOCAL,
    MEMORY_HOST_CACHED, MEMORY_HOST_COHERENT, MEMORY_HOST_VISIBLE, MEMORY_PROTECTED, QUEUE_COMPUTE,
};

const QUEUE_GRAPHICS: u32 = 0x1;

/// A compute shader that maps each storage word `v` to `v * 3 + 7`, with
/// LocalSize 64x1x1, one storage buffer at set 0 binding 0, and a
/// WorkgroupSize builtin constant equal to LocalSize.
fn shader_words() -> Vec<u32> {
    let op = |count: u32, opcode: u32| (count << 16) | opcode;
    let mut w = vec![0x0723_0203, 0x0001_0300, 0, 29, 0];
    let instructions: Vec<Vec<u32>> = vec![
        vec![op(2, 17), 1],
        vec![op(3, 14), 0, 1],
        vec![op(6, 15), 5, 1, u32::from_le_bytes(*b"main"), 0, 2],
        vec![op(6, 16), 1, 17, 64, 1, 1],
        vec![op(4, 71), 2, 11, 28],
        vec![op(4, 71), 11, 6, 4],
        vec![op(5, 72), 12, 0, 35, 0],
        vec![op(3, 71), 12, 2],
        vec![op(4, 71), 14, 34, 0],
        vec![op(4, 71), 14, 33, 0],
        vec![op(4, 71), 22, 11, 25],
        vec![op(2, 19), 3],
        vec![op(3, 33), 4, 3],
        vec![op(4, 21), 6, 32, 0],
        vec![op(4, 23), 7, 6, 3],
        vec![op(4, 32), 8, 1, 7],
        vec![op(4, 59), 8, 2, 1],
        vec![op(4, 43), 6, 9, 0],
        vec![op(4, 32), 10, 1, 6],
        vec![op(3, 29), 11, 6],
        vec![op(3, 30), 12, 11],
        vec![op(4, 32), 13, 12, 12],
        vec![op(4, 59), 13, 14, 12],
        vec![op(4, 21), 15, 32, 1],
        vec![op(4, 43), 15, 16, 0],
        vec![op(4, 43), 6, 17, 3],
        vec![op(4, 43), 6, 18, 7],
        vec![op(4, 32), 19, 12, 6],
        vec![op(4, 43), 6, 20, 64],
        vec![op(4, 43), 6, 21, 1],
        vec![op(6, 44), 7, 22, 20, 21, 21],
        vec![op(5, 54), 3, 1, 0, 4],
        vec![op(2, 248), 5],
        vec![op(5, 65), 10, 23, 2, 9],
        vec![op(4, 61), 6, 24, 23],
        vec![op(6, 65), 19, 25, 14, 16, 24],
        vec![op(4, 61), 6, 26, 25],
        vec![op(5, 132), 6, 27, 26, 17],
        vec![op(5, 128), 6, 28, 27, 18],
        vec![op(3, 62), 25, 28],
        vec![op(1, 253)],
        vec![op(1, 56)],
    ];
    for i in instructions {
        w.extend(i);
    }
    w
}

fn shader_bytes() -> Vec<u8> {
    shader_words().into_iter().flat_map(u32::to_le_bytes).collect()
}

fn candidate(vendor: u32, id: u8) -> VulkanDeviceCandidate {
    let mut report = VulkanDeviceCandidate {
        vendor_id: vendor,
        device_id: 7,
        name: "capability fixture".into(),
        device_type: "INTEGRATED_GPU".into(),
        api_version: API_VERSION_1_1,
        device_uuid: Some([id; 16]),
        robust_buffer_access: true,
        queue_families: vec![
            VulkanQueueFamilyInfo { index: 0, queue_count: 1, flags: QUEUE_GRAPHICS },
            VulkanQueueFamilyInfo { index: 2, queue_count: 0, flags: QUEUE_COMPUTE },
            VulkanQueueFamilyInfo { index: 3, queue_count: 1, flags: QUEUE_COMPUTE },
        ],
        memory_types: vec![VulkanMemoryTypeInfo {
            property_flags: MEMORY_HOST_VISIBLE,
            heap_size: 4096,
            ..Default::default()
        }],
        limits: VulkanComputeLimits {
            max_workgroup_count: [8; 3],
            max_workgroup_size: [32; 3],
            max_workgroup_invocations: 64,
            max_storage_buffer_range: 4096,
            max_per_stage_storage_buffers: 4,
            max_descriptor_set_storage_buffers: 4,
            max_per_stage_resources: 4,
            max_bound_descriptor_sets: 1,
            max_memory_allocation_count: 8,
            non_coherent_atom_size: 256,
        },
        ..Default::default()
    };
    report.unsupported_reasons = baseline_rejections(&report, hardware_type(&report.device_type));
    report
}

fn error_text(r: Result<usize, nextcore_gpu::compute::ComputeError>) -> String {
    r.unwrap_err().message()
}

#[test]
fn uuid_selects_same_model_without_first_device_or_vendor_policy() {
    for vendor_id in [0x1002, 0x10de, 0x8086, 0xabcd] {
        let reports = [candidate(vendor_id, 1), candidate(vendor_id, 2)];
        let selector = VulkanDeviceSelector { vendor_id, device_id: 7 };
        assert!(error_text(select_candidate(&reports, selector, None)).contains("ambiguous"));
        assert_eq!(select_candidate(&reports, selector, Some([2; 16])).unwrap(), 1);
        assert_eq!(
            select_candidate(&[reports[1].clone(), reports[0].clone()], selector, Some([2; 16]))
                .unwrap(),
            0
        );
        assert!(error_text(select_candidate(&reports, selector, Some([3; 16]))).contains("not found"));
        assert_eq!(compute_family(&reports[0]), Some(3));
    }
}

#[test]
fn duplicate_uuid_and_wrong_ids_never_choose_a_candidate() {
    let reports = [candidate(0x8086, 1), candidate(0x8086, 1)];
    let selector = VulkanDeviceSelector { vendor_id: 0x8086, device_id: 7 };
    assert!(error_text(select_candidate(&reports, selector, Some([1; 16]))).contains("ambiguous"));
    assert!(select_candidate(
        &reports,
        VulkanDeviceSelector { vendor_id: 0x1002, ..selector },
        Some([1; 16])
    )
    .is_err());
    assert!(select_candidate(&[], selector, None).is_err());
}

#[test]
fn unsupported_diagnostics_report_all_failed_baseline_requirements() {
    let mut report = candidate(0x10de, 1);
    report.device_type = "CPU".into();
    report.api_version = API_VERSION_1_0;
    report.robust_buffer_access = false;
    report.queue_families[2].queue_count = 0;
    report.memory_types[0].property_flags = MEMORY_DEVICE_LOCAL;
    report.limits.max_workgroup_size[1] = 0;
    report.limits.max_storage_buffer_range = 3;
    report.limits.non_coherent_atom_size = 0;
    report.unsupported_reasons = baseline_rejections(&report, hardware_type(&report.device_type));
    assert_eq!(report.unsupported_reasons.len(), 8);
    let error = error_text(select_candidate(
        &[report],
        VulkanDeviceSelector { vendor_id: 0x10de, device_id: 7 },
        None,
    ));
    for reason in [
        "CPU/virtual fallback denied",
        "Vulkan 1.1",
        "robustBufferAccess",
        "compute queue",
        "HOST_VISIBLE",
        "workgroup",
        "storage/descriptor",
        "nonCoherentAtomSize",
    ] {
        assert!(error.contains(reason), "{error}");
    }
}

#[test]
fn virtual_device_remains_unsupported_and_low_capacity_is_explicit() {
    let mut report = candidate(0x8086, 1);
    report.device_type = "VIRTUAL_GPU".into();
    assert_eq!(baseline_rejections(&report, hardware_type(&report.device_type)).len(), 1);
    report.device_type = "DISCRETE_GPU".into();
    report.limits.max_bound_descriptor_sets = 0;
    assert_eq!(baseline_rejections(&report, hardware_type(&report.device_type)).len(), 1);
    report.limits.max_bound_descriptor_sets = 1;
    report.memory_types[0].heap_size = 3;
    assert_eq!(baseline_rejections(&report, hardware_type(&report.device_type)).len(), 1);
}

fn memory_fixture() -> HostMemoryProperties {
    let mut memory = HostMemoryProperties {
        memory_type_count: 4,
        memory_types: [HostMemoryType { property_flags: 0, heap_index: 0 }; 32],
        memory_heap_count: 2,
        memory_heap_sizes: [0; 16],
        memory_heap_flags: [0; 16],
    };
    memory.memory_heap_sizes[0] = 4096;
    memory.memory_heap_sizes[1] = 65536;
    memory.memory_types[0] = HostMemoryType { property_flags: MEMORY_DEVICE_LOCAL, heap_index: 1 };
    memory.memory_types[1] =
        HostMemoryType { property_flags: MEMORY_HOST_VISIBLE | MEMORY_HOST_CACHED, heap_index: 0 };
    memory.memory_types[2] = HostMemoryType {
        property_flags: MEMORY_HOST_VISIBLE | MEMORY_HOST_COHERENT | MEMORY_DEVICE_LOCAL,
        heap_index: 1,
    };
    memory.memory_types[3] = HostMemoryType {
        property_flags: MEMORY_HOST_VISIBLE | MEMORY_HOST_COHERENT | MEMORY_HOST_CACHED,
        heap_index: 0,
    };
    memory
}

#[test]
fn host_memory_selection_respects_buffer_bits_coherency_and_shared_heaps() {
    let memory = memory_fixture();
    assert_eq!(host_memory_type(&memory, 0b1111, 4096).unwrap(), (3, true));
    assert_eq!(host_memory_type(&memory, 0b0111, 4096).unwrap(), (2, true));
    assert_eq!(host_memory_type(&memory, 0b0011, 4096).unwrap(), (1, false));
    assert!(host_memory_type(&memory, 0b0001, 4).is_err());
    assert_eq!(host_memory_type(&memory, 0b1111, 4097).unwrap(), (2, true));
    assert!(host_memory_type(&memory, 0b0011, 4097).is_err());
    assert!(host_memory_type(&memory, 0, 4).is_err());
    assert!(host_memory_type(&memory, u32::MAX, u64::MAX).is_err());
    assert!(host_memory_type(&memory, u32::MAX, 0).is_err());
}

#[test]
fn optional_memory_features_are_not_silently_used() {
    let mut memory = memory_fixture();
    memory.memory_types[3].property_flags |= MEMORY_DEVICE_COHERENT_AMD;
    assert_eq!(host_memory_type(&memory, 0b1111, 4).unwrap(), (2, true));
    assert!(host_memory_type(&memory, 0b1000, 4).is_err());
    memory.memory_types[2].property_flags |= MEMORY_PROTECTED;
    assert_eq!(host_memory_type(&memory, 0b1111, 4).unwrap(), (1, false));
    let mut report = candidate(0x1002, 1);
    report.memory_types[0].property_flags |= MEMORY_DEVICE_COHERENT_AMD;
    assert_eq!(baseline_rejections(&report, hardware_type(&report.device_type)).len(), 1);
}

#[test]
fn memory_type_index_31_and_malformed_counts_are_checked() {
    let mut memory = memory_fixture();
    memory.memory_type_count = 32;
    memory.memory_types[31] = memory.memory_types[1];
    assert_eq!(host_memory_type(&memory, 1 << 31, 4).unwrap(), (31, false));
    memory.memory_types[31].heap_index = 2;
    assert!(host_memory_type(&memory, 1 << 31, 4).is_err());
    memory.memory_type_count = 33;
    assert!(host_memory_type(&memory, u32::MAX, 4).is_err());
    memory.memory_type_count = 4;
    memory.memory_heap_count = 17;
    assert!(host_memory_type(&memory, u32::MAX, 4).is_err());
}

#[test]
fn memory_errors_carry_exact_messages() {
    let memory = memory_fixture();
    let counts = host_memory_type(&memory, 1, 0).unwrap_err().message();
    assert_eq!(
        counts,
        "unsupported or invalid compute input: invalid Vulkan allocation size or memory property counts"
    );
    let none = host_memory_type(&memory, 0b0001, 4).unwrap_err().message();
    assert_eq!(
        none,
        "unsupported or invalid compute input: no compatible HOST_VISIBLE memory: memoryTypeBits=0x00000001, allocation_size=4; device-local-only memory is not host mappable; protected/device-coherent memory features are not enabled"
    );
    assert_eq!(hex_word(0xdead_beef), format!("{:#010x}", 0xdead_beefu32));
    assert_eq!(hex_word(0), "0x00000000");
}

#[test]
fn baseline_messages_are_exact_and_ordered() {
    let mut report = candidate(0x1002, 1);
    assert!(report.unsupported_reasons.is_empty());
    report.device_type = "OTHER".into();
    report.robust_buffer_access = false;
    let reasons = baseline_rejections(&report, hardware_type(&report.device_type));
    assert_eq!(
        reasons,
        vec![
            "device type OTHER is not an integrated/discrete GPU; CPU/virtual fallback denied".to_string(),
            "robustBufferAccess is required".to_string(),
        ]
    );
    report.unsupported_reasons = reasons;
    let selector = VulkanDeviceSelector { vendor_id: 0x1002, device_id: 7 };
    assert_eq!(
        error_text(select_candidate(&[report], selector, None)),
        "unsupported or invalid compute input: selected Vulkan device capability fixture unsupported: device type OTHER is not an integrated/discrete GPU; CPU/virtual fallback denied; robustBufferAccess is required"
    );
}

#[test]
fn api_variant_and_power_of_two_rules() {
    let mut report = candidate(0x1002, 1);
    report.api_version = API_VERSION_1_1 | (1 << 29);
    assert_eq!(baseline_rejections(&report, true), vec!["Vulkan 1.1 physical device required".to_string()]);
    for (v, expected) in [(0u64, false), (1, true), (2, true), (3, false), (256, true), (1 << 63, true), (u64::MAX, false)] {
        assert_eq!(is_power_of_two(v), expected, "{v}");
        assert_eq!(is_power_of_two(v), v.is_power_of_two());
    }
    assert!(hardware_type("DISCRETE_GPU"));
    assert!(!hardware_type("CPU"));
    assert_eq!(join(&vec!["a".to_string(), "b".to_string(), "c".to_string()], "; "), "a; b; c");
    assert_eq!(join(&vec![], "; "), "");
}

fn descriptor(size: [u32; 3], bindings: &[(u32, u64)]) -> ComputePipelineDescriptor {
    ComputePipelineDescriptor {
        shader: ComputeShader { id: 1, entry_point: "main".into(), bytecode: shader_bytes() },
        workgroup_size: size,
        buffer_bindings: bindings
            .iter()
            .enumerate()
            .map(|(i, (binding, size))| BufferBinding {
                binding: *binding,
                buffer_id: i as u64 + 1,
                offset: 0,
                size: *size,
            })
            .collect(),
    }
}

#[test]
fn device_limits_bound_dimensions_invocations_and_storage() {
    let limits = candidate(0x1002, 1).limits;
    assert!(validate_limits(&limits, &descriptor([4, 4, 4], &[(0, 64)]), [8, 8, 8]).is_ok());
    let dims = validate_limits(&limits, &descriptor([4, 4, 4], &[(0, 64)]), [9, 1, 1]).unwrap_err();
    assert_eq!(dims.message(), "unsupported or invalid compute input: compute dimensions exceed device limits");
    let over = validate_limits(&limits, &descriptor([32, 4, 1], &[(0, 64)]), [1, 1, 1]).unwrap_err();
    assert_eq!(over.message(), "unsupported or invalid compute input: compute invocation/storage limits exceeded");
    assert!(validate_limits(&limits, &descriptor([1, 1, 1], &[(0, 8192)]), [1, 1, 1]).is_err());
    let five: Vec<(u32, u64)> = (0..5).map(|b| (b, 4)).collect();
    assert!(validate_limits(&limits, &descriptor([1, 1, 1], &five), [1, 1, 1]).is_err());
    assert!(validate_backend_request(VulkanDeviceSelector { vendor_id: 0x8086, device_id: 1 }, 5_000_000_000).is_ok());
    assert!(validate_backend_request(VulkanDeviceSelector { vendor_id: 0x8086, device_id: 1 }, 5_000_000_001).is_err());
    assert!(validate_backend_request(VulkanDeviceSelector { vendor_id: 0, device_id: 1 }, 1).is_err());
    assert!(validate_backend_request(VulkanDeviceSelector { vendor_id: 1, device_id: 1 }, 0).is_err());
}

#[test]
fn authored_fixture_profile() {
    let shader = shader_bytes();
    let profile = inspect_spirv(&shader, "main").unwrap();
    assert_eq!(profile.local_size, [64, 1, 1]);
    assert_eq!(profile.bindings, std::collections::BTreeSet::from([0]));
    assert_eq!(profile.words, shader_words());
}

#[test]
fn rejects_bad_header_truncation_entry_and_optional_capabilities() {
    let shader = shader_bytes();
    assert!(inspect_spirv(&[], "main").is_err());
    assert!(inspect_spirv(&shader[..shader.len() - 1], "main").is_err());
    assert!(inspect_spirv(&shader, "missing").is_err());
    let mut broken = shader.clone();
    broken[..4].fill(0);
    assert!(inspect_spirv(&broken, "main").is_err());
    let mut optional = shader.clone();
    optional[24..28].copy_from_slice(&11u32.to_le_bytes());
    assert!(inspect_spirv(&optional, "main").is_err());
}

#[test]
fn rejects_nonzero_descriptor_set_and_conflicting_workgroup_builtin() {
    for modification in 0..2 {
        let mut words = shader_words();
        let mut at = 5;
        let mut changed = false;
        while at < words.len() {
            let count = (words[at] >> 16) as usize;
            let opcode = words[at] & 0xffff;
            if modification == 0 && opcode == 71 && count == 4 && words[at + 2] == 34 {
                words[at + 3] = 1;
                changed = true;
                break;
            }
            if modification == 1 && opcode == 43 && count == 4 && words[at + 3] == 64 {
                words[at + 3] = 32;
                changed = true;
                break;
            }
            at += count;
        }
        assert!(changed);
        let bytes: Vec<u8> = words.into_iter().flat_map(u32::to_le_bytes).collect();
        assert!(inspect_spirv(&bytes, "main").is_err());
    }
}

fn fault_of(words: &[u32], entry: &str) -> SpirvFault {
    let bytes: Vec<u8> = words.iter().flat_map(|w| w.to_le_bytes()).collect();
    inspect_module(&bytes, entry).unwrap_err()
}

#[test]
fn spirv_faults_name_the_broken_rule() {
    let words = shader_words();
    assert_eq!(fault_of(&words, "ma-in"), SpirvFault::Bounds);
    assert_eq!(fault_of(&words, "mai"), SpirvFault::EntryMismatch);
    let mut v = words.clone();
    v[1] = 0x0001_0400;
    assert_eq!(fault_of(&v, "main"), SpirvFault::Header);
    assert_eq!(fault_of(&words[..4], "main"), SpirvFault::Bounds);
    let mut v = words.clone();
    v.push((9 << 16) | 1);
    assert_eq!(fault_of(&v, "main"), SpirvFault::Truncated);
    let mut v = words.clone();
    v.extend([(2 << 16) | 10, 0]);
    assert_eq!(fault_of(&v, "main"), SpirvFault::UnsupportedFeature);
    let mut v = words.clone();
    v.extend([(3 << 16) | 14, 0, 1]);
    assert_eq!(fault_of(&v, "main"), SpirvFault::MemoryModel);
    let mut v = words.clone();
    v.extend([(4 << 16) | 59, 8, 30, 4]);
    assert_eq!(fault_of(&v, "main"), SpirvFault::StorageClass);
    let mut v = words.clone();
    v.extend([(4 << 16) | 71, 14, 33, 1]);
    assert_eq!(fault_of(&v, "main"), SpirvFault::DuplicateDescriptor);
    let mut v = words.clone();
    v.extend([(2 << 16) | 73, 31]);
    assert_eq!(fault_of(&v, "main"), SpirvFault::DecorationGroups);
    let mut v = words.clone();
    v.extend([(4 << 16) | 21, 31, 64, 0]);
    assert_eq!(fault_of(&v, "main"), SpirvFault::NumericWidth);
    let err = inspect_spirv(&[0u8; 20], "main").unwrap_err();
    assert_eq!(err.message(), "unsupported or invalid compute input: SPIR-V header/version");
    assert_eq!(SpirvFault::SetZero.message(), "storage descriptors require unique bindings in set zero");
}

#[test]
fn shader_contract_matches_descriptor() {
    let profile = inspect_spirv(&shader_bytes(), "main").unwrap();
    assert!(check_shader_contract(&profile, &descriptor([64, 1, 1], &[(0, 1024)])).is_ok());
    let size = check_shader_contract(&profile, &descriptor([32, 1, 1], &[(0, 1024)])).unwrap_err();
    assert_eq!(size.message(), "unsupported or invalid compute input: descriptor workgroup size differs from SPIR-V LocalSize");
    let bindings = check_shader_contract(&profile, &descriptor([64, 1, 1], &[(0, 4), (1, 4)])).unwrap_err();
    assert_eq!(bindings.message(), "unsupported or invalid compute input: descriptor bindings differ from SPIR-V storage variables");
}

#[test]
fn pipeline_key_matches_only_identical_code_entry_and_bindings() {
    let words = shader_words();
    let views = vec![(0u32, vec![1u8; 4]), (3, vec![2u8; 8])];
    let key = PipelineKey::new(&words, "main", &views);
    assert_eq!(key.bindings, vec![0, 3]);
    assert!(key.matches(&words, "main", &[(0, vec![9u8; 4]), (3, vec![])]));
    let mut changed = words.clone();
    changed[10] ^= 1;
    assert!(!key.matches(&changed, "main", &views));
    assert!(!key.matches(&words, "other", &views));
    assert!(!key.matches(&words, "main", &[(3, vec![]), (0, vec![])]));
    assert!(!key.matches(&words, "main", &views[..1]));
}

#[test]
fn memory_reports_carry_heap_size_and_flags() {
    let mut memory = memory_fixture();
    memory.memory_heap_flags[1] = 1;
    let reports = memory_type_reports(&memory).unwrap();
    assert_eq!(reports.len(), 4);
    assert_eq!(reports[2].index, 2);
    assert_eq!(reports[2].heap_size, 65536);
    assert_eq!(reports[2].heap_flags, 1);
    assert_eq!(reports[3].heap_size, 4096);
    memory.memory_types[3].heap_index = 2;
    assert_eq!(
        memory_type_reports(&memory).unwrap_err().message(),
        "unsupported or invalid compute input: driver memory type references missing heap"
    );
    memory.memory_type_count = 33;
    assert_eq!(
        memory_type_reports(&memory).unwrap_err().message(),
        "unsupported or invalid compute input: driver memory property counts exceed Vulkan arrays"
    );
}

#[test]
fn shader_contract_compares_binding_sets() {
    let profile = inspect_spirv(&shader_bytes(), "main").unwrap();
    assert!(check_shader_contract(&profile, &descriptor([64, 1, 1], &[(0, 4), (0, 8)])).is_ok());
    assert!(check_shader_contract(&profile, &descriptor([64, 1, 1], &[(1, 4)])).is_err());
    assert!(check_shader_contract(&profile, &descriptor([64, 1, 1], &[])).is_err());
}
