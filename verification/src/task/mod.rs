//! Kernel tasks, processes and the scheduler's bookkeeping.

pub mod process;
pub mod scheduler;
pub mod program_loader;
pub mod timer;
pub mod userspace;
pub mod keyboard;
pub mod context;
pub mod executor;

use vstd::prelude::*;

verus! {

/// Identifier of an executor task.
#[derive(Debug, Clone, Copy, PartialEq, Eq, Structural)]
pub struct TaskId(pub u64);

impl TaskId {
    pub fn as_u64(self) -> (r: u64)
        ensures
            r == self.0,
    {
        self.0
    }
}

/// Hands out task ids 0, 1, 2, ... (wrapping).
pub struct TaskIdAllocator {
    pub next: u64,
}

impl TaskIdAllocator {
    pub fn new() -> (r: Self)
        ensures
            r.next == 0,
    {
        TaskIdAllocator { next: 0 }
    }

    /// The next id.
    pub fn allocate(&mut self) -> (r: TaskId)
        ensures
            r.0 == old(self).next,
            final(self).next == if old(self).next == u64::MAX { 0 } else { (old(self).next + 1) as u64 },
    {
        let id = TaskId(self.next);
        self.next = self.next.wrapping_add(1);
        id
    }
}

#[derive(Debug, Clone, Copy, PartialEq, Eq, Structural)]
pub enum TaskState {
    Ready,
    Sleeping,
    Finished,
}

/// What the kernel knows of a task besides its future: id, name, creation tick and
/// state.
#[derive(Debug, Clone, Copy)]
pub struct Task {
    id: TaskId,
    name: &'static str,
    created_tick: u64,
    state: TaskState,
}

impl Task {
    pub closed spec fn spec_id(&self) -> TaskId {
        self.id
    }

    pub closed spec fn spec_name(&self) -> &'static str {
        self.name
    }

    pub closed spec fn spec_created_tick(&self) -> u64 {
        self.created_tick
    }

    pub closed spec fn spec_state(&self) -> TaskState {
        self.state
    }

    /// An unnamed task created at `created_tick`, with the next id.
    pub fn new(ids: &mut TaskIdAllocator, created_tick: u64) -> (r: Task)
        ensures
            r.spec_id().0 == old(ids).next,
            r.spec_name()@ == "unnamed"@,
            r.spec_created_tick() == created_tick,
            r.spec_state() == TaskState::Ready,
            final(ids).next == if old(ids).next == u64::MAX { 0 } else { (old(ids).next + 1) as u64 },
    {
        Self::named(ids, "unnamed", created_tick)
    }

    /// A task called `name` created at `created_tick`, with the next id.
    pub fn named(ids: &mut TaskIdAllocator, name: &'static str, created_tick: u64) -> (r: Task)
        ensures
            r.spec_id().0 == old(ids).next,
            r.spec_name() == name,
            r.spec_created_tick() == created_tick,
            r.spec_state() == TaskState::Ready,
            final(ids).next == if old(ids).next == u64::MAX { 0 } else { (old(ids).next + 1) as u64 },
    {
        Task { id: ids.allocate(), name, created_tick, state: TaskState::Ready }
    }

    pub fn id(&self) -> (r: TaskId)
        ensures
            r == self.spec_id(),
    {
        self.id
    }

    pub fn name(&self) -> (r: &'static str)
        ensures
            r == self.spec_name(),
    {
        self.name
    }

    pub fn created_tick(&self) -> (r: u64)
        ensures
            r == self.spec_created_tick(),
    {
        self.created_tick
    }

    pub fn state(&self) -> (r: TaskState)
        ensures
            r == self.spec_state(),
    {
        self.state
    }

    pub fn set_state(&mut self, state: TaskState)
        ensures
            final(self).spec_state() == state,
            final(self).spec_id() == old(self).spec_id(),
            final(self).spec_name() == old(self).spec_name(),
            final(self).spec_created_tick() == old(self).spec_created_tick(),
    {
        self.state = state;
    }
}

} // verus!
