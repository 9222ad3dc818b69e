//! Fences, counting semaphores and events, and the synchronization manager
//! that owns them.
//!
//! A fence, semaphore or event made by its own constructor holds its own
//! state. One handed out by the manager is a handle: its id names one entry
//! of the manager's state, so every handle with the same id (a fence and its
//! `clone_state` copy among them) reads and changes the same entry. Changes go
//! through a `&mut` borrow, so a waiter that holds the manager observes a
//! state that nothing else can change while it waits: a wait answers at once
//! from that state.
use vstd::prelude::*;
use std::collections::HashMap;

verus! {

broadcast use vstd::std_specs::hash::group_hash_axioms;

#[derive(Debug, Clone, Copy, PartialEq, Eq, Hash, Structural)]
pub struct FenceId(pub u64);

#[derive(Debug, Clone, Copy, PartialEq, Eq, Hash, Structural)]
pub struct SemaphoreId(pub u64);

#[derive(Debug, Clone, Copy, PartialEq, Eq, Hash, Structural)]
pub struct EventId(pub u64);

/// The state of one fence: whether it is signaled, and the value it holds.
#[derive(Debug, Clone, Copy, PartialEq, Eq, Structural)]
pub struct FenceState {
    pub signaled: bool,
    pub value: u64,
}

impl FenceState {
    /// A fence as created or reset: unsignaled, value 0.
    pub open spec fn spec_clear() -> FenceState {
        FenceState { signaled: false, value: 0 }
    }
}

/// The manager as a mathematical value: the state of each fence, the counter
/// of each semaphore and whether each event fired, by id, and the next id of
/// each kind.
#[verifier::ext_equal]
pub struct SyncModel {
    pub fences: Map<u64, FenceState>,
    pub semaphores: Map<u64, u64>,
    pub events: Map<u64, bool>,
    pub next_fence: u64,
    pub next_semaphore: u64,
    pub next_event: u64,
}

impl SyncModel {
    /// A new manager: nothing created, every kind numbered from 1.
    pub open spec fn spec_new() -> SyncModel {
        SyncModel {
            fences: Map::empty(),
            semaphores: Map::empty(),
            events: Map::empty(),
            next_fence: 1,
            next_semaphore: 1,
            next_event: 1,
        }
    }

    /// The ids present of each kind are exactly those handed out so far, from
    /// 1 up to the next one.
    pub open spec fn wf(self) -> bool {
        &&& 1 <= self.next_fence
        &&& 1 <= self.next_semaphore
        &&& 1 <= self.next_event
        &&& forall|k: u64| #[trigger] self.fences.contains_key(k) <==> 1 <= k < self.next_fence
        &&& forall|k: u64| #[trigger] self.semaphores.contains_key(k) <==> 1 <= k < self.next_semaphore
        &&& forall|k: u64| #[trigger] self.events.contains_key(k) <==> 1 <= k < self.next_event
        &&& self.fences.dom().finite()
        &&& self.semaphores.dom().finite()
        &&& self.events.dom().finite()
        &&& self.fences.len() == self.next_fence - 1
        &&& self.semaphores.len() == self.next_semaphore - 1
        &&& self.events.len() == self.next_event - 1
    }

    /// `create_fence`: the next id, now holding an unsignaled fence of value 0.
    pub open spec fn spec_create_fence(self) -> (SyncModel, FenceId) {
        (
            SyncModel {
                fences: self.fences.insert(self.next_fence, FenceState::spec_clear()),
                next_fence: (self.next_fence + 1) as u64,
                ..self
            },
            FenceId(self.next_fence),
        )
    }

    /// `create_semaphore`: the next id, now holding a counter of 0.
    pub open spec fn spec_create_semaphore(self) -> (SyncModel, SemaphoreId) {
        (
            SyncModel {
                semaphores: self.semaphores.insert(self.next_semaphore, 0),
                next_semaphore: (self.next_semaphore + 1) as u64,
                ..self
            },
            SemaphoreId(self.next_semaphore),
        )
    }

    /// `create_event`: the next id, now holding an event not yet fired.
    pub open spec fn spec_create_event(self) -> (SyncModel, EventId) {
        (
            SyncModel {
                events: self.events.insert(self.next_event, false),
                next_event: (self.next_event + 1) as u64,
                ..self
            },
            EventId(self.next_event),
        )
    }

    /// Signals fence `id` with `value`; an unknown id changes nothing.
    pub open spec fn spec_signal_fence(self, id: FenceId, value: u64) -> SyncModel {
        if self.fences.contains_key(id.0) {
            SyncModel {
                fences: self.fences.insert(id.0, FenceState { signaled: true, value }),
                ..self
            }
        } else {
            self
        }
    }

    /// Resets fence `id` to unsignaled with value 0; an unknown id changes nothing.
    pub open spec fn spec_reset_fence(self, id: FenceId) -> SyncModel {
        if self.fences.contains_key(id.0) {
            SyncModel { fences: self.fences.insert(id.0, FenceState::spec_clear()), ..self }
        } else {
            self
        }
    }

    /// Adds one to semaphore `id`'s counter, wrapping at `u64::MAX`; an unknown
    /// id changes nothing.
    pub open spec fn spec_signal_semaphore(self, id: SemaphoreId) -> SyncModel {
        if self.semaphores.contains_key(id.0) {
            SyncModel {
                semaphores: self.semaphores.insert(
                    id.0,
                    ((self.semaphores[id.0] + 1) % 0x1_0000_0000_0000_0000) as u64,
                ),
                ..self
            }
        } else {
            self
        }
    }

    /// Sets semaphore `id`'s counter to 0; an unknown id changes nothing.
    pub open spec fn spec_reset_semaphore(self, id: SemaphoreId) -> SyncModel {
        if self.semaphores.contains_key(id.0) {
            SyncModel { semaphores: self.semaphores.insert(id.0, 0), ..self }
        } else {
            self
        }
    }

    /// Fires event `id`; an unknown id changes nothing.
    pub open spec fn spec_fire_event(self, id: EventId) -> SyncModel {
        if self.events.contains_key(id.0) {
            SyncModel { events: self.events.insert(id.0, true), ..self }
        } else {
            self
        }
    }

    /// Clears event `id`; an unknown id changes nothing.
    pub open spec fn spec_reset_event(self, id: EventId) -> SyncModel {
        if self.events.contains_key(id.0) {
            SyncModel { events: self.events.insert(id.0, false), ..self }
        } else {
            self
        }
    }

    /// Every fence, semaphore and event reset; the ids stay.
    pub open spec fn spec_reset_all(self) -> SyncModel {
        SyncModel {
            fences: Map::new(|k: u64| self.fences.contains_key(k), |k: u64| FenceState::spec_clear()),
            semaphores: Map::new(|k: u64| self.semaphores.contains_key(k), |k: u64| 0u64),
            events: Map::new(|k: u64| self.events.contains_key(k), |k: u64| false),
            ..self
        }
    }

    /// Whether fence `id` exists and is signaled.
    pub open spec fn spec_fence_signaled(self, id: FenceId) -> bool {
        self.fences.contains_key(id.0) && self.fences[id.0].signaled
    }

    /// The value of fence `id` (0 for an unknown id).
    pub open spec fn spec_fence_value(self, id: FenceId) -> u64 {
        if self.fences.contains_key(id.0) {
            self.fences[id.0].value
        } else {
            0
        }
    }

    /// The counter of semaphore `id` (0 for an unknown id).
    pub open spec fn spec_semaphore_value(self, id: SemaphoreId) -> u64 {
        if self.semaphores.contains_key(id.0) {
            self.semaphores[id.0]
        } else {
            0
        }
    }

    /// Whether event `id` exists and has fired.
    pub open spec fn spec_event_fired(self, id: EventId) -> bool {
        self.events.contains_key(id.0) && self.events[id.0]
    }
}

/// A fence. One made by [`GpuFence::new`] holds its own state; one handed out
/// by a manager is a handle on the manager's entry for its id, which every
/// handle with that id shares.
#[derive(Debug, Clone, Copy, PartialEq, Eq, Structural)]
pub struct GpuFence {
    pub id: FenceId,
    /// The fence's own state, or `None` for a handle on a manager's entry.
    pub own: Option<FenceState>,
}

impl GpuFence {
    /// The fence's own state, or `None` for a handle on a manager's entry.
    pub open spec fn spec_own(&self) -> Option<FenceState> {
        self.own
    }

    /// Whether the fence is signaled, reading `m` for a handle on a manager's entry.
    pub open spec fn spec_signaled_in(&self, m: SyncModel) -> bool {
        match self.spec_own() {
            Some(s) => s.signaled,
            None => m.spec_fence_signaled(self.id),
        }
    }

    /// The fence's value, reading `m` for a handle on a manager's entry.
    pub open spec fn spec_value_in(&self, m: SyncModel) -> u64 {
        match self.spec_own() {
            Some(s) => s.value,
            None => m.spec_fence_value(self.id),
        }
    }

    /// A fence of its own, unsignaled with value 0.
    pub fn new(id: FenceId) -> (r: Self)
        ensures
            r.id == id,
            r.spec_own() == Some(FenceState::spec_clear()),
    {
        GpuFence { id, own: Some(FenceState { signaled: false, value: 0 }) }
    }

    /// Whether the fence is signaled (for a handle, in `sync`).
    pub fn is_signaled(&self, sync: &GpuSyncManager) -> (r: bool)
        ensures
            r == self.spec_signaled_in(sync@),
    {
        match self.own {
            Some(s) => s.signaled,
            None => match sync.fences.get(&self.id.0) {
                Some(s) => s.signaled,
                None => false,
            },
        }
    }

    /// Signals the fence with `value`: its own state, or `sync`'s entry for a handle.
    pub fn signal(&mut self, sync: &mut GpuSyncManager, value: u64)
        requires
            old(sync).wf(),
        ensures
            final(sync).wf(),
            final(self).id == old(self).id,
            match old(self).spec_own() {
                Some(_) => final(self).spec_own() == Some(FenceState { signaled: true, value })
                    && final(sync)@ == old(sync)@,
                None => final(self).spec_own() is None && final(sync)@ == old(sync)@.spec_signal_fence(
                    old(self).id,
                    value,
                ),
            },
    {
        if self.own.is_some() {
            self.own = Some(FenceState { signaled: true, value });
        } else {
            sync.signal_fence(self.id, value);
        }
    }

    /// The fence's value (for a handle, in `sync`).
    pub fn get_value(&self, sync: &GpuSyncManager) -> (r: u64)
        ensures
            r == self.spec_value_in(sync@),
    {
        match self.own {
            Some(s) => s.value,
            None => match sync.fences.get(&self.id.0) {
                Some(s) => s.value,
                None => 0,
            },
        }
    }

    /// Resets the fence to unsignaled with value 0: its own state, or
    /// `sync`'s entry for a handle.
    pub fn reset(&mut self, sync: &mut GpuSyncManager)
        requires
            old(sync).wf(),
        ensures
            final(sync).wf(),
            final(self).id == old(self).id,
            match old(self).spec_own() {
                Some(_) => final(self).spec_own() == Some(FenceState::spec_clear()) && final(sync)@ == old(sync)@,
                None => final(self).spec_own() is None && final(sync)@ == old(sync)@.spec_reset_fence(old(self).id),
            },
    {
        if self.own.is_some() {
            self.own = Some(FenceState { signaled: false, value: 0 });
        } else {
            if sync.fences.contains_key(&self.id.0) {
                sync.fences.insert(self.id.0, FenceState { signaled: false, value: 0 });
                proof {
                    lemma_insert_present(old(sync)@.fences, self.id.0, FenceState::spec_clear());
                }
            }
            assert(sync@ =~= old(sync)@.spec_reset_fence(self.id));
        }
    }

    /// A fence with the same id and state. A copy of a manager's handle is a
    /// handle on the same entry, so both read and change one state.
    pub fn clone_state(&self) -> (r: Self)
        ensures
            r.id == self.id,
            r.spec_own() == self.spec_own(),
    {
        GpuFence { id: self.id, own: self.own }
    }
}

/// A counting semaphore. One made by [`GpuSemaphore::new`] holds its own
/// counter; one handed out by a manager is a handle on the manager's entry.
#[derive(Debug, Clone, Copy, PartialEq, Eq, Structural)]
pub struct GpuSemaphore {
    pub id: SemaphoreId,
    /// The semaphore's own counter, or `None` for a handle on a manager's entry.
    pub own: Option<u64>,
}

impl GpuSemaphore {
    /// The semaphore's own counter, or `None` for a handle on a manager's entry.
    pub open spec fn spec_own(&self) -> Option<u64> {
        self.own
    }

    /// The counter, reading `m` for a handle on a manager's entry.
    pub open spec fn spec_value_in(&self, m: SyncModel) -> u64 {
        match self.spec_own() {
            Some(c) => c,
            None => m.spec_semaphore_value(self.id),
        }
    }

    /// A semaphore of its own with counter 0.
    pub fn new(id: SemaphoreId) -> (r: Self)
        ensures
            r.id == id,
            r.spec_own() == Some(0u64),
    {
        GpuSemaphore { id, own: Some(0) }
    }

    /// Adds one to the counter, wrapping around at `u64::MAX`: its own
    /// counter, or `sync`'s entry for a handle.
    pub fn signal(&mut self, sync: &mut GpuSyncManager)
        requires
            old(sync).wf(),
        ensures
            final(sync).wf(),
            final(self).id == old(self).id,
            match old(self).spec_own() {
                Some(c) => final(self).spec_own() == Some(((c + 1) % 0x1_0000_0000_0000_0000) as u64)
                    && final(sync)@ == old(sync)@,
                None => final(self).spec_own() is None && final(sync)@ == old(sync)@.spec_signal_semaphore(
                    old(self).id,
                ),
            },
    {
        match self.own {
            Some(c) => {
                self.own = Some(c.wrapping_add(1));
            },
            None => {
                sync.signal_semaphore(self.id);
            },
        }
    }

    /// The counter (for a handle, in `sync`).
    pub fn get_value(&self, sync: &GpuSyncManager) -> (r: u64)
        ensures
            r == self.spec_value_in(sync@),
    {
        match self.own {
            Some(c) => c,
            None => match sync.semaphores.get(&self.id.0) {
                Some(c) => *c,
                None => 0,
            },
        }
    }

    /// Whether the counter has reached `target` (for a handle, in `sync`).
    pub fn wait_value(&self, sync: &GpuSyncManager, target: u64) -> (r: bool)
        ensures
            r == (self.spec_value_in(sync@) >= target),
    {
        self.get_value(sync) >= target
    }

    /// Sets the counter to 0: its own counter, or `sync`'s entry for a handle.
    pub fn reset(&mut self, sync: &mut GpuSyncManager)
        requires
            old(sync).wf(),
        ensures
            final(sync).wf(),
            final(self).id == old(self).id,
            match old(self).spec_own() {
                Some(_) => final(self).spec_own() == Some(0u64) && final(sync)@ == old(sync)@,
                None => final(self).spec_own() is None && final(sync)@ == old(sync)@.spec_reset_semaphore(
                    old(self).id,
                ),
            },
    {
        if self.own.is_some() {
            self.own = Some(0);
        } else {
            if sync.semaphores.contains_key(&self.id.0) {
                sync.semaphores.insert(self.id.0, 0);
                proof {
                    lemma_insert_present(old(sync)@.semaphores, self.id.0, 0u64);
                }
            }
            assert(sync@ =~= old(sync)@.spec_reset_semaphore(self.id));
        }
    }
}

/// An event. One made by [`GpuEvent::new`] holds its own flag; one handed
/// out by a manager is a handle on the manager's entry.
#[derive(Debug, Clone, Copy, PartialEq, Eq, Structural)]
pub struct GpuEvent {
    pub id: EventId,
    /// The event's own flag, or `None` for a handle on a manager's entry.
    pub own: Option<bool>,
}

impl GpuEvent {
    /// The event's own flag, or `None` for a handle on a manager's entry.
    pub open spec fn spec_own(&self) -> Option<bool> {
        self.own
    }

    /// Whether the event fired, reading `m` for a handle on a manager's entry.
    pub open spec fn spec_fired_in(&self, m: SyncModel) -> bool {
        match self.spec_own() {
            Some(f) => f,
            None => m.spec_event_fired(self.id),
        }
    }

    /// An event of its own, not fired.
    pub fn new(id: EventId) -> (r: Self)
        ensures
            r.id == id,
            r.spec_own() == Some(false),
    {
        GpuEvent { id, own: Some(false) }
    }

    /// Fires the event: its own flag, or `sync`'s entry for a handle.
    pub fn fire(&mut self, sync: &mut GpuSyncManager)
        requires
            old(sync).wf(),
        ensures
            final(sync).wf(),
            final(self).id == old(self).id,
            match old(self).spec_own() {
                Some(_) => final(self).spec_own() == Some(true) && final(sync)@ == old(sync)@,
                None => final(self).spec_own() is None && final(sync)@ == old(sync)@.spec_fire_event(old(self).id),
            },
    {
        if self.own.is_some() {
            self.own = Some(true);
        } else {
            sync.fire_event(self.id);
        }
    }

    /// Whether the event fired (for a handle, in `sync`).
    pub fn is_fired(&self, sync: &GpuSyncManager) -> (r: bool)
        ensures
            r == self.spec_fired_in(sync@),
    {
        match self.own {
            Some(f) => f,
            None => match sync.events.get(&self.id.0) {
                Some(f) => *f,
                None => false,
            },
        }
    }

    /// Clears the event: its own flag, or `sync`'s entry for a handle.
    pub fn reset(&mut self, sync: &mut GpuSyncManager)
        requires
            old(sync).wf(),
        ensures
            final(sync).wf(),
            final(self).id == old(self).id,
            match old(self).spec_own() {
                Some(_) => final(self).spec_own() == Some(false) && final(sync)@ == old(sync)@,
                None => final(self).spec_own() is None && final(sync)@ == old(sync)@.spec_reset_event(old(self).id),
            },
    {
        if self.own.is_some() {
            self.own = Some(false);
        } else {
            if sync.events.contains_key(&self.id.0) {
                sync.events.insert(self.id.0, false);
                proof {
                    lemma_insert_present(old(sync)@.events, self.id.0, false);
                }
            }
            assert(sync@ =~= old(sync)@.spec_reset_event(self.id));
        }
    }
}

pub struct GpuSyncManager {
    next_fence_id: u64,
    next_semaphore_id: u64,
    next_event_id: u64,
    fences: HashMap<u64, FenceState>,
    semaphores: HashMap<u64, u64>,
    events: HashMap<u64, bool>,
}

impl View for GpuSyncManager {
    type V = SyncModel;

    closed spec fn view(&self) -> SyncModel {
        SyncModel {
            fences: self.fences@,
            semaphores: self.semaphores@,
            events: self.events@,
            next_fence: self.next_fence_id,
            next_semaphore: self.next_semaphore_id,
            next_event: self.next_event_id,
        }
    }
}

/// Replacing the value under a key already present keeps the domain and its size.
proof fn lemma_insert_present<V>(m: Map<u64, V>, k: u64, v: V)
    requires
        m.contains_key(k),
        m.dom().finite(),
    ensures
        m.insert(k, v).dom() == m.dom(),
        m.insert(k, v).len() == m.len(),
{
    assert(m.insert(k, v).dom() =~= m.dom());
}

impl GpuSyncManager {
    pub open spec fn wf(&self) -> bool {
        self@.wf()
    }

    pub fn new() -> (r: Self)
        ensures
            r.wf(),
            r@ == SyncModel::spec_new(),
    {
        let r = GpuSyncManager {
            next_fence_id: 1,
            next_semaphore_id: 1,
            next_event_id: 1,
            fences: HashMap::new(),
            semaphores: HashMap::new(),
            events: HashMap::new(),
        };
        assert(r@ =~= SyncModel::spec_new());
        r
    }

    pub fn create_fence(&mut self) -> (r: FenceId)
        requires
            old(self).wf(),
            old(self)@.next_fence < u64::MAX,
        ensures
            final(self).wf(),
            (final(self)@, r) == old(self)@.spec_create_fence(),
    {
        let id = FenceId(self.next_fence_id);
        assert(!self@.fences.contains_key(id.0));
        self.next_fence_id = self.next_fence_id + 1;
        self.fences.insert(id.0, FenceState { signaled: false, value: 0 });
        assert(self@ =~= old(self)@.spec_create_fence().0);
        id
    }

    /// A handle on fence `id`, where the manager holds it.
    pub fn get_fence(&self, id: FenceId) -> (r: Option<GpuFence>)
        ensures
            r is Some <==> self@.fences.contains_key(id.0),
            r matches Some(f) ==> f.id == id && f.spec_own() is None,
    {
        if self.fences.contains_key(&id.0) {
            Some(GpuFence { id, own: None })
        } else {
            None
        }
    }

    /// Signals the fence with `value`; an unknown id changes nothing.
    pub fn signal_fence(&mut self, id: FenceId, value: u64)
        requires
            old(self).wf(),
        ensures
            final(self).wf(),
            final(self)@ == old(self)@.spec_signal_fence(id, value),
    {
        if self.fences.contains_key(&id.0) {
            self.fences.insert(id.0, FenceState { signaled: true, value });
            proof {
                lemma_insert_present(old(self)@.fences, id.0, FenceState { signaled: true, value });
            }
        }
        assert(self@ =~= old(self)@.spec_signal_fence(id, value));
    }

    /// Whether the fence exists and is signaled.
    pub fn wait_fence(&self, id: FenceId, timeout_ms: u64) -> (r: bool)
        ensures
            r == self@.spec_fence_signaled(id),
    {
        GpuFence { id, own: None }.is_signaled(self)
    }

    pub fn create_semaphore(&mut self) -> (r: SemaphoreId)
        requires
            old(self).wf(),
            old(self)@.next_semaphore < u64::MAX,
        ensures
            final(self).wf(),
            (final(self)@, r) == old(self)@.spec_create_semaphore(),
    {
        let id = SemaphoreId(self.next_semaphore_id);
        assert(!self@.semaphores.contains_key(id.0));
        self.next_semaphore_id = self.next_semaphore_id + 1;
        self.semaphores.insert(id.0, 0);
        assert(self@ =~= old(self)@.spec_create_semaphore().0);
        id
    }

    /// A handle on semaphore `id`, where the manager holds it.
    pub fn get_semaphore(&self, id: SemaphoreId) -> (r: Option<GpuSemaphore>)
        ensures
            r is Some <==> self@.semaphores.contains_key(id.0),
            r matches Some(s) ==> s.id == id && s.spec_own() is None,
    {
        if self.semaphores.contains_key(&id.0) {
            Some(GpuSemaphore { id, own: None })
        } else {
            None
        }
    }

    /// Adds one to the semaphore's counter; an unknown id changes nothing.
    pub fn signal_semaphore(&mut self, id: SemaphoreId)
        requires
            old(self).wf(),
        ensures
            final(self).wf(),
            final(self)@ == old(self)@.spec_signal_semaphore(id),
    {
        match self.semaphores.get(&id.0) {
            Some(c) => {
                let next = c.wrapping_add(1);
                self.semaphores.insert(id.0, next);
                proof {
                    lemma_insert_present(old(self)@.semaphores, id.0, next);
                }
            },
            None => {},
        }
        assert(self@ =~= old(self)@.spec_signal_semaphore(id));
    }

    /// Whether the semaphore exists and its counter has reached `target`.
    pub fn wait_semaphore(&self, id: SemaphoreId, target: u64, timeout_ms: u64) -> (r: bool)
        ensures
            r == (self@.semaphores.contains_key(id.0) && self@.semaphores[id.0] >= target),
    {
        match self.semaphores.get(&id.0) {
            Some(c) => *c >= target,
            None => false,
        }
    }

    pub fn create_event(&mut self) -> (r: EventId)
        requires
            old(self).wf(),
            old(self)@.next_event < u64::MAX,
        ensures
            final(self).wf(),
            (final(self)@, r) == old(self)@.spec_create_event(),
    {
        let id = EventId(self.next_event_id);
        assert(!self@.events.contains_key(id.0));
        self.next_event_id = self.next_event_id + 1;
        self.events.insert(id.0, false);
        assert(self@ =~= old(self)@.spec_create_event().0);
        id
    }

    /// A handle on event `id`, where the manager holds it.
    pub fn get_event(&self, id: EventId) -> (r: Option<GpuEvent>)
        ensures
            r is Some <==> self@.events.contains_key(id.0),
            r matches Some(e) ==> e.id == id && e.spec_own() is None,
    {
        if self.events.contains_key(&id.0) {
            Some(GpuEvent { id, own: None })
        } else {
            None
        }
    }

    /// Fires the event; an unknown id changes nothing.
    pub fn fire_event(&mut self, id: EventId)
        requires
            old(self).wf(),
        ensures
            final(self).wf(),
            final(self)@ == old(self)@.spec_fire_event(id),
    {
        if self.events.contains_key(&id.0) {
            self.events.insert(id.0, true);
            proof {
                lemma_insert_present(old(self)@.events, id.0, true);
            }
        }
        assert(self@ =~= old(self)@.spec_fire_event(id));
    }

    /// Whether the event exists and has fired.
    pub fn wait_event(&self, id: EventId, timeout_ms: u64) -> (r: bool)
        ensures
            r == self@.spec_event_fired(id),
    {
        GpuEvent { id, own: None }.is_fired(self)
    }

    /// Resets every fence, semaphore and event; the set of ids stays.
    pub fn reset_all(&mut self)
        requires
            old(self).wf(),
        ensures
            final(self).wf(),
            final(self)@ == old(self)@.spec_reset_all(),
    {
        let ghost target = old(self)@.spec_reset_all();
        let mut k: u64 = 1;
        while k < self.next_fence_id
            invariant
                old(self).wf(),
                1 <= k <= self.next_fence_id,
                self@ == (SyncModel { fences: self@.fences, ..old(self)@ }),
                self@.fences.dom() == old(self)@.fences.dom(),
                forall|j: u64| #[trigger] self@.fences.contains_key(j) && j < k ==> self@.fences[j]
                    == FenceState::spec_clear(),
            decreases self.next_fence_id - k,
        {
            let ghost before = self@.fences;
            self.fences.insert(k, FenceState { signaled: false, value: 0 });
            assert(self@.fences.dom() =~= before.dom());
            k = k + 1;
        }
        assert(self@.fences =~= target.fences);
        let mut k: u64 = 1;
        while k < self.next_semaphore_id
            invariant
                old(self).wf(),
                1 <= k <= self.next_semaphore_id,
                self@ == (SyncModel { semaphores: self@.semaphores, fences: target.fences, ..old(self)@ }),
                self@.semaphores.dom() == old(self)@.semaphores.dom(),
                forall|j: u64| #[trigger] self@.semaphores.contains_key(j) && j < k ==> self@.semaphores[j] == 0,
            decreases self.next_semaphore_id - k,
        {
            let ghost before = self@.semaphores;
            self.semaphores.insert(k, 0);
            assert(self@.semaphores.dom() =~= before.dom());
            k = k + 1;
        }
        assert(self@.semaphores =~= target.semaphores);
        let mut k: u64 = 1;
        while k < self.next_event_id
            invariant
                old(self).wf(),
                1 <= k <= self.next_event_id,
                self@ == (SyncModel {
                    events: self@.events,
                    fences: target.fences,
                    semaphores: target.semaphores,
                    ..old(self)@
                }),
                self@.events.dom() == old(self)@.events.dom(),
                forall|j: u64| #[trigger] self@.events.contains_key(j) && j < k ==> !self@.events[j],
            decreases self.next_event_id - k,
        {
            let ghost before = self@.events;
            self.events.insert(k, false);
            assert(self@.events.dom() =~= before.dom());
            k = k + 1;
        }
        assert(self@.events =~= target.events);
        assert(self@ =~= target);
        assert(target.fences.dom() =~= old(self)@.fences.dom());
        assert(target.semaphores.dom() =~= old(self)@.semaphores.dom());
        assert(target.events.dom() =~= old(self)@.events.dom());
    }

    pub fn fence_count(&self) -> (r: usize)
        ensures
            r == self@.fences.len(),
    {
        self.fences.len()
    }

    pub fn semaphore_count(&self) -> (r: usize)
        ensures
            r == self@.semaphores.len(),
    {
        self.semaphores.len()
    }

    pub fn event_count(&self) -> (r: usize)
        ensures
            r == self@.events.len(),
    {
        self.events.len()
    }
}

impl Default for GpuSyncManager {
    fn default() -> (r: Self)
        ensures
            r.wf(),
            r@ == SyncModel::spec_new(),
    {
        Self::new()
    }
}


/// Handles on a manager's entries with the same id see one state. For any
/// manager state, two fence handles with one id (a handle and its
/// `clone_state` copy among them) read the same signal and value; after a
/// signal through either, both read signaled with that value; after a reset
/// through either, both read unsignaled with value 0.
pub proof fn law_fence_handles_share_state(m: SyncModel, f: GpuFence, g: GpuFence, v: u64)
    requires
        f.id == g.id,
        f.spec_own() is None,
        g.spec_own() is None,
        m.fences.contains_key(f.id.0),
    ensures
        f.spec_signaled_in(m) == g.spec_signaled_in(m),
        f.spec_value_in(m) == g.spec_value_in(m),
        g.spec_signaled_in(m.spec_signal_fence(f.id, v)),
        g.spec_value_in(m.spec_signal_fence(f.id, v)) == v,
        !g.spec_signaled_in(m.spec_reset_fence(f.id)),
        g.spec_value_in(m.spec_reset_fence(f.id)) == 0,
{
}

/// Semaphore and event handles on a manager's entries with the same id see
/// one state as well: a signal through one handle raises the counter the
/// other reads by one (wrapping at `u64::MAX`), a reset through one is read
/// as 0 through the other, and an event fired or reset through one handle
/// reads fired or not through the other.
pub proof fn law_semaphore_and_event_handles_share_state(
    m: SyncModel,
    s: GpuSemaphore,
    t: GpuSemaphore,
    e: GpuEvent,
    d: GpuEvent,
)
    requires
        s.id == t.id,
        e.id == d.id,
        s.spec_own() is None,
        t.spec_own() is None,
        e.spec_own() is None,
        d.spec_own() is None,
        m.semaphores.contains_key(s.id.0),
        m.events.contains_key(e.id.0),
    ensures
        t.spec_value_in(m.spec_signal_semaphore(s.id)) == (s.spec_value_in(m) + 1) % 0x1_0000_0000_0000_0000,
        t.spec_value_in(m.spec_reset_semaphore(s.id)) == 0,
        d.spec_fired_in(m.spec_fire_event(e.id)),
        !d.spec_fired_in(m.spec_reset_event(e.id)),
{
}

/// A semaphore of its own counts its signals: started from `new` and
/// signalled `k` times without a reset (fewer than 2^64 times), it reads
/// `k` (so waiting for `t` succeeds exactly when `k >= t`), whatever manager
/// state it is read against.
pub proof fn law_own_semaphore_counts(states: Seq<GpuSemaphore>, m: SyncModel)
    requires
        states.len() > 0,
        states.len() <= 0x1_0000_0000_0000_0000,
        states[0].spec_own() == Some(0u64),
        forall|k: int|
            0 <= k < states.len() - 1 ==> (#[trigger] states[k + 1]).spec_own() == Some(
                ((states[k].spec_own()->0 + 1) % 0x1_0000_0000_0000_0000) as u64,
            ),
    ensures
        forall|k: int| 0 <= k < states.len() ==> (#[trigger] states[k]).spec_value_in(m) == k,
{
    assert forall|k: int| 0 <= k < states.len() implies (#[trigger] states[k]).spec_value_in(m) == k by {
        lemma_own_count(states, k);
    }
}

proof fn lemma_own_count(states: Seq<GpuSemaphore>, k: int)
    requires
        0 <= k < states.len(),
        states.len() <= 0x1_0000_0000_0000_0000,
        states[0].spec_own() == Some(0u64),
        forall|j: int|
            0 <= j < states.len() - 1 ==> (#[trigger] states[j + 1]).spec_own() == Some(
                ((states[j].spec_own()->0 + 1) % 0x1_0000_0000_0000_0000) as u64,
            ),
    ensures
        states[k].spec_own() == Some(k as u64),
    decreases k,
{
    if k > 0 {
        lemma_own_count(states, k - 1);
        assert(states[(k - 1) + 1].spec_own() == Some(((states[k - 1].spec_own()->0 + 1) % 0x1_0000_0000_0000_0000) as u64));
    }
}

/// From a new manager, `n` fence creations hand out the ids 1, 2, ..., n in
/// order; the manager then counts `n` fences, each unsignaled with value 0,
/// holds no fence `n + 1`, and still has no semaphore and no event.
pub proof fn law_fence_creation_counts(states: Seq<SyncModel>, ids: Seq<FenceId>)
    requires
        states.len() == ids.len() + 1,
        ids.len() < u64::MAX,
        states[0] == SyncModel::spec_new(),
        forall|k: int| 0 <= k < ids.len() ==> (states[k + 1], ids[k]) == #[trigger] states[k].spec_create_fence(),
    ensures
        forall|k: int| 0 <= k < ids.len() ==> (#[trigger] ids[k]).0 == k + 1,
        states.last().fences.len() == ids.len(),
        forall|k: int| 0 <= k < ids.len() ==> states.last().fences.contains_key((#[trigger] ids[k]).0)
            && states.last().fences[ids[k].0] == FenceState::spec_clear(),
        !states.last().fences.contains_key((ids.len() + 1) as u64),
        states.last().semaphores.len() == 0,
        states.last().events.len() == 0,
{
    lemma_creation_prefix(states, ids, ids.len() as int);
    assert forall|k: int| 0 <= k < ids.len() implies states.last().fences.contains_key((#[trigger] ids[k]).0)
        && states.last().fences[ids[k].0] == FenceState::spec_clear() by {
        lemma_creation_prefix(states, ids, k + 1);
    }
}

/// After the first `n` creations: the next id is n + 1, ids 1..=n are held,
/// all clear, the n-th call returned n, and nothing else changed.
proof fn lemma_creation_prefix(states: Seq<SyncModel>, ids: Seq<FenceId>, n: int)
    requires
        states.len() == ids.len() + 1,
        ids.len() < u64::MAX,
        0 <= n <= ids.len(),
        states[0] == SyncModel::spec_new(),
        forall|k: int| 0 <= k < ids.len() ==> (states[k + 1], ids[k]) == #[trigger] states[k].spec_create_fence(),
    ensures
        states[n].wf(),
        states[n].next_fence == n + 1,
        forall|j: u64| #[trigger] states[n].fences.contains_key(j) ==> states[n].fences[j] == FenceState::spec_clear(),
        forall|k: int| 0 <= k < n ==> (#[trigger] ids[k]).0 == k + 1,
        forall|k: int| 0 <= k < n ==> states[n].fences.contains_key((#[trigger] ids[k]).0),
        states[n].semaphores == Map::<u64, u64>::empty(),
        states[n].events == Map::<u64, bool>::empty(),
        states[n].next_semaphore == 1,
        states[n].next_event == 1,
    decreases n,
{
    if n == 0 {
        assert(states[0].fences.dom() =~= Set::<u64>::empty());
        assert(states[0].semaphores.dom() =~= Set::<u64>::empty());
        assert(states[0].events.dom() =~= Set::<u64>::empty());
    } else {
        lemma_creation_prefix(states, ids, n - 1);
        let p = states[n - 1];
        assert((states[n], ids[n - 1]) == p.spec_create_fence());
        assert(!p.fences.contains_key(p.next_fence));
        assert(states[n].fences.dom() == p.fences.dom().insert(p.next_fence));
    }
}

} // verus!
