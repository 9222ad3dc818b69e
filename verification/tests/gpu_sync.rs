use nextcore_gpu::sync::{EventId, FenceId, GpuEvent, GpuFence, GpuSemaphore, GpuSyncManager, SemaphoreId};

#[test]
fn test_fence_create_and_signal() {
    let mut sm = GpuSyncManager::new();
    let fid = sm.create_fence();
    assert!(!sm.get_fence(fid).unwrap().is_signaled(&sm));

    sm.signal_fence(fid, 42);
    let fence = sm.get_fence(fid).unwrap();
    assert!(fence.is_signaled(&sm));
    assert_eq!(fence.get_value(&sm), 42);
}

#[test]
fn test_fence_wait() {
    let mut sm = GpuSyncManager::new();
    let fid = sm.create_fence();
    sm.signal_fence(fid, 1);
    assert!(sm.wait_fence(fid, 100));
}

#[test]
fn test_fence_timeout() {
    let mut sm = GpuSyncManager::new();
    let fid = sm.create_fence();
    assert!(!sm.wait_fence(fid, 50));
}

#[test]
fn test_semaphore_signal_wait() {
    let mut sm = GpuSyncManager::new();
    let sid = sm.create_semaphore();
    assert_eq!(sm.get_semaphore(sid).unwrap().get_value(&sm), 0);

    sm.signal_semaphore(sid);
    sm.signal_semaphore(sid);
    assert_eq!(sm.get_semaphore(sid).unwrap().get_value(&sm), 2);
    assert!(sm.wait_semaphore(sid, 2, 100));
}

#[test]
fn test_semaphore_timeout() {
    let mut sm = GpuSyncManager::new();
    let sid = sm.create_semaphore();
    assert!(!sm.wait_semaphore(sid, 5, 50));
}

#[test]
fn test_event_fire_wait() {
    let mut sm = GpuSyncManager::new();
    let eid = sm.create_event();
    assert!(!sm.get_event(eid).unwrap().is_fired(&sm));

    sm.fire_event(eid);
    assert!(sm.get_event(eid).unwrap().is_fired(&sm));
    assert!(sm.wait_event(eid, 100));
}

#[test]
fn test_event_reset() {
    let mut sm = GpuSyncManager::new();
    let eid = sm.create_event();
    sm.fire_event(eid);
    assert!(sm.get_event(eid).unwrap().is_fired(&sm));
    sm.reset_all();
    assert!(!sm.get_event(eid).unwrap().is_fired(&sm));
}

#[test]
fn test_reset_all_resets_all_types() {
    let mut sm = GpuSyncManager::new();
    let fid = sm.create_fence();
    let sid = sm.create_semaphore();
    let eid = sm.create_event();

    sm.signal_fence(fid, 1);
    sm.signal_semaphore(sid);
    sm.fire_event(eid);

    sm.reset_all();

    assert!(!sm.get_fence(fid).unwrap().is_signaled(&sm));
    assert_eq!(sm.get_semaphore(sid).unwrap().get_value(&sm), 0);
    assert!(!sm.get_event(eid).unwrap().is_fired(&sm));
}

#[test]
fn test_counts() {
    let mut sm = GpuSyncManager::new();
    let _f = sm.create_fence();
    let _f2 = sm.create_fence();
    let _s = sm.create_semaphore();
    let _e = sm.create_event();

    assert_eq!(sm.fence_count(), 2);
    assert_eq!(sm.semaphore_count(), 1);
    assert_eq!(sm.event_count(), 1);
}

#[test]
fn test_semaphore_is_cloneable_state() {
    // Verify that the sync manager types can be referenced without data races.
    let mut sm = GpuSyncManager::new();
    let sid = sm.create_semaphore();
    let sem: nextcore_gpu::sync::GpuSemaphore = sm.get_semaphore(sid).unwrap();
    assert_eq!(std::mem::size_of_val(&sem), std::mem::size_of::<nextcore_gpu::sync::GpuSemaphore>());
}

#[test]
fn test_semaphore_id_derives() {
    let a = SemaphoreId(1);
    let b = SemaphoreId(1);
    assert_eq!(a, b);
    let c = SemaphoreId(2);
    assert_ne!(a, c);
}

#[test]
fn fence_copies_share_one_state() {
    let mut sm = GpuSyncManager::new();
    let fid = sm.create_fence();
    let mut f = sm.get_fence(fid).unwrap();
    let mut g = f.clone_state();
    assert_eq!(g.id, f.id);
    g.signal(&mut sm, 7);
    assert!(f.is_signaled(&sm));
    assert_eq!(f.get_value(&sm), 7);
    f.reset(&mut sm);
    assert!(!g.is_signaled(&sm));
    assert_eq!(g.get_value(&sm), 0);
    assert!(!sm.wait_fence(fid, 10));
}

#[test]
fn semaphore_and_event_handles_share_one_state() {
    let mut sm = GpuSyncManager::new();
    let sid = sm.create_semaphore();
    let eid = sm.create_event();
    let mut s1 = sm.get_semaphore(sid).unwrap();
    let mut s2 = sm.get_semaphore(sid).unwrap();
    s1.signal(&mut sm);
    s1.signal(&mut sm);
    assert_eq!(s2.get_value(&sm), 2);
    assert!(s2.wait_value(&sm, 2));
    assert!(!s2.wait_value(&sm, 3));
    s2.reset(&mut sm);
    assert_eq!(s1.get_value(&sm), 0);
    let mut e1 = sm.get_event(eid).unwrap();
    let mut e2 = sm.get_event(eid).unwrap();
    e1.fire(&mut sm);
    assert!(e2.is_fired(&sm));
    assert!(sm.wait_event(eid, 10));
    e2.reset(&mut sm);
    assert!(!e1.is_fired(&sm));
}

#[test]
fn fence_ids_count_up_from_one() {
    let mut sm = GpuSyncManager::new();
    for k in 0..5u64 {
        let id = sm.create_fence();
        assert_eq!(id, FenceId(k + 1));
    }
    assert_eq!(sm.fence_count(), 5);
    for k in 1..=5u64 {
        let f = sm.get_fence(FenceId(k)).unwrap();
        assert_eq!(f.id, FenceId(k));
        assert!(!f.is_signaled(&sm));
        assert_eq!(f.get_value(&sm), 0);
    }
    assert!(sm.get_fence(FenceId(6)).is_none());
    assert_eq!(sm.semaphore_count(), 0);
    assert_eq!(sm.event_count(), 0);
}

#[test]
fn unknown_ids_change_nothing() {
    let mut sm = GpuSyncManager::new();
    let fid = sm.create_fence();
    sm.signal_fence(FenceId(99), 3);
    sm.signal_semaphore(SemaphoreId(99));
    sm.fire_event(EventId(99));
    assert!(!sm.wait_fence(fid, 0));
    assert!(!sm.wait_fence(FenceId(99), 0));
    assert!(!sm.wait_semaphore(SemaphoreId(99), 0, 0));
    assert!(!sm.wait_event(EventId(99), 0));
    assert_eq!(sm.fence_count(), 1);
}

#[test]
fn own_semaphore_counts_its_signals() {
    let mut sm = GpuSyncManager::new();
    let mut s = GpuSemaphore::new(SemaphoreId(1));
    for _ in 0..5 {
        s.signal(&mut sm);
    }
    assert_eq!(s.get_value(&sm), 5);
    assert!(s.wait_value(&sm, 5));
    assert!(!s.wait_value(&sm, 6));
    assert_eq!(sm.semaphore_count(), 0);
    s.reset(&mut sm);
    assert_eq!(s.get_value(&sm), 0);
    assert!(s.wait_value(&sm, 0));
    assert!(!s.wait_value(&sm, 1));
}

#[test]
fn own_fence_and_event_hold_their_state() {
    let mut sm = GpuSyncManager::new();
    let fid = sm.create_fence();
    let mut f = GpuFence::new(fid);
    assert!(!f.is_signaled(&sm));
    f.signal(&mut sm, 9);
    assert!(f.is_signaled(&sm));
    assert_eq!(f.get_value(&sm), 9);
    assert!(!sm.wait_fence(fid, 0));
    f.reset(&mut sm);
    assert!(!f.is_signaled(&sm));
    assert_eq!(f.get_value(&sm), 0);
    let mut e = GpuEvent::new(EventId(3));
    assert!(!e.is_fired(&sm));
    e.fire(&mut sm);
    assert!(e.is_fired(&sm));
    e.reset(&mut sm);
    assert!(!e.is_fired(&sm));
}
