use nextcore_gpu::compute::{
    validate_dispatch, BufferBinding, ComputeError, ComputePipelineDescriptor,
    ComputePipelineManager, ComputeShader, DispatchWorkgroup,
};
use nextcore_gpu::sync::{FenceId, GpuSyncManager};

fn descriptor(size: [u32; 3], bindings: Vec<BufferBinding>) -> ComputePipelineDescriptor {
    ComputePipelineDescriptor {
        shader: ComputeShader { id: 1, entry_point: "main".into(), bytecode: vec![] },
        workgroup_size: size,
        buffer_bindings: bindings,
    }
}

fn binding(binding: u32, buffer_id: u64, offset: u64, size: u64) -> BufferBinding {
    BufferBinding { binding, buffer_id, offset, size }
}

fn groups(x: u32, y: u32, z: u32) -> DispatchWorkgroup {
    DispatchWorkgroup { x, y, z }
}

#[test]
fn pipelines_get_increasing_ids_and_delete_once() {
    let mut m = ComputePipelineManager::new();
    let a = m.create_pipeline(descriptor([1, 1, 1], vec![]));
    let b = m.create_pipeline(descriptor([2, 1, 1], vec![]));
    assert_eq!((a, b), (1, 2));
    assert_eq!(m.get_pipeline(b).unwrap().descriptor.workgroup_size, [2, 1, 1]);
    assert!(m.delete_pipeline(a));
    assert!(!m.delete_pipeline(a));
    assert!(m.get_pipeline(a).is_none());
}

#[test]
fn storage_write_then_read_gives_back_the_bytes() {
    let mut m = ComputePipelineManager::new();
    let h = m.create_storage_buffer(8);
    assert_eq!(m.storage_buffer_size(h), Some(8));
    assert_eq!(m.storage_buffer_count(), 1);
    m.write_storage_buffer(h, 2, &[9, 8, 7]).unwrap();
    assert_eq!(m.read_storage_buffer(h, 2, 3).unwrap(), vec![9, 8, 7]);
    assert_eq!(m.read_storage_buffer(h, 0, 8).unwrap(), vec![0, 0, 9, 8, 7, 0, 0, 0]);
}

#[test]
fn storage_errors_name_the_fault() {
    let mut m = ComputePipelineManager::new();
    let h = m.create_storage_buffer(4);
    assert!(matches!(m.write_storage_buffer(99, 0, &[1]), Err(ComputeError::BufferNotBound(0))));
    assert!(matches!(
        m.write_storage_buffer(h, 2, &[1, 2, 3]),
        Err(ComputeError::StorageBufferTooSmall { needed: 5, available: 4 })
    ));
    let e = m.write_storage_buffer(h, usize::MAX, &[1]).unwrap_err();
    assert_eq!(e.message(), "unsupported or invalid compute input: buffer range overflow");
    let e = m.read_storage_buffer(77, 0, 1).unwrap_err();
    assert_eq!(e.message(), "compute error: buffer 77 not found");
    let e = m.read_storage_buffer(h, 1, 4).unwrap_err();
    assert_eq!(e.message(), "storage buffer too small: need 5, got 4");
    assert_eq!(m.read_storage_buffer(h, 0, 4).unwrap(), vec![0; 4]);
}

#[test]
fn error_messages_match_their_variants() {
    assert_eq!(ComputeError::PipelineNotFound(3).message(), "pipeline not found: 3");
    assert_eq!(ComputeError::BufferNotBound(1).message(), "buffer not bound at slot 1");
    assert_eq!(ComputeError::InvalidDispatch([0, 1, 2]).message(), "dispatch dimensions invalid: [0, 1, 2]");
    assert_eq!(ComputeError::BackendUnavailable.message(), "no compute execution backend configured");
    assert_eq!(ComputeError::InvalidFence.message(), "compute fence must exist and be unsignaled");
}

#[test]
fn dispatch_checks_in_order_and_never_executes() {
    let mut m = ComputePipelineManager::new();
    let mut sync = GpuSyncManager::new();
    let fence = sync.create_fence();
    let buf = m.create_storage_buffer(16);
    let p = m.create_pipeline(descriptor([1, 1, 1], vec![binding(0, buf, 0, 16)]));
    assert!(matches!(m.dispatch(42, groups(1, 1, 1), &sync, fence), Err(ComputeError::PipelineNotFound(42))));
    assert!(matches!(m.dispatch(p, groups(1, 0, 1), &sync, fence), Err(ComputeError::InvalidDispatch([1, 0, 1]))));
    assert!(matches!(m.dispatch(p, groups(1, 1, 1), &sync, FenceId(999)), Err(ComputeError::InvalidFence)));
    assert!(matches!(m.dispatch(p, groups(1, 1, 1), &sync, fence), Err(ComputeError::BackendUnavailable)));
    sync.signal_fence(fence, 1);
    assert!(matches!(m.dispatch(p, groups(1, 1, 1), &sync, fence), Err(ComputeError::InvalidFence)));
    let missing = m.create_pipeline(descriptor([1, 1, 1], vec![binding(0, 555, 0, 16)]));
    let fresh = sync.create_fence();
    assert!(matches!(m.dispatch(missing, groups(1, 1, 1), &sync, fresh), Err(ComputeError::BufferNotBound(0))));
    let short = m.create_pipeline(descriptor([1, 1, 1], vec![binding(3, buf, 8, 16)]));
    assert!(matches!(
        m.dispatch(short, groups(1, 1, 1), &sync, fresh),
        Err(ComputeError::StorageBufferTooSmall { needed: 24, available: 16 })
    ));
}

#[test]
fn dispatch_validation_limits() {
    let ok = descriptor([4, 4, 4], vec![binding(0, 1, 0, 16)]);
    assert!(validate_dispatch(&ok, [1, 1, 1]).is_ok());
    assert!(matches!(
        validate_dispatch(&ok, [1 << 20, 1, 1]),
        Err(ComputeError::InvalidDispatch([1048576, 1, 1]))
    ));
    assert!(validate_dispatch(&descriptor([1, 1, 1], vec![]), [1, 1, 1]).is_err());
    let nine: Vec<_> = (0..9).map(|i| binding(i, i as u64 + 1, 0, 4)).collect();
    assert!(validate_dispatch(&descriptor([1, 1, 1], nine), [1, 1, 1]).is_err());
    let aliased = vec![binding(0, 1, 0, 4), binding(1, 1, 4, 4)];
    assert!(validate_dispatch(&descriptor([1, 1, 1], aliased), [1, 1, 1]).is_err());
    let unaligned = vec![binding(0, 1, 2, 4)];
    assert!(validate_dispatch(&descriptor([1, 1, 1], unaligned), [1, 1, 1]).is_err());
    let e = validate_dispatch(&descriptor([1, 1, 1], vec![binding(32, 1, 0, 4)]), [1, 1, 1]).unwrap_err();
    assert_eq!(e.message(), "unsupported or invalid compute input: invalid/duplicate/aliased storage binding");
}

#[test]
fn backend_readback_commits_and_signals_the_fence() {
    let mut m = ComputePipelineManager::new();
    let mut sync = GpuSyncManager::new();
    let fence = sync.create_fence();
    let buf = m.create_storage_buffer(12);
    m.write_storage_buffer(buf, 0, &[1; 12]).unwrap();
    let p = m.create_pipeline(descriptor([1, 1, 1], vec![binding(0, buf, 4, 8)]));
    let views = m.dispatch_views(p, groups(2, 1, 1), &sync, fence).unwrap();
    assert_eq!(views, vec![(0, vec![1; 8])]);
    let wrong = m.commit_dispatch(p, groups(2, 1, 1), vec![vec![5; 4]], &mut sync, fence).unwrap_err();
    assert_eq!(wrong.message(), "compute error: backend readback sizes disagree");
    assert!(!sync.get_fence(fence).unwrap().is_signaled(&sync));
    m.commit_dispatch(p, groups(2, 1, 1), vec![vec![5; 8]], &mut sync, fence).unwrap();
    assert_eq!(m.read_storage_buffer(buf, 0, 12).unwrap(), vec![1, 1, 1, 1, 5, 5, 5, 5, 5, 5, 5, 5]);
    assert!(sync.get_fence(fence).unwrap().is_signaled(&sync));
    assert_eq!(sync.get_fence(fence).unwrap().get_value(&sync), 1);
}
