//! Read-only figures about the processes on the board.
//!
//! The process table belongs to the scheduler. What the kernel's diagnostics
//! read from it is handed over as a list of slots, one for each process the
//! board has room for; a slot is empty while no process is loaded in it.

use vstd::prelude::*;

verus! {

/// The figures kept for one loaded process.
#[derive(Debug)]
pub struct ProcessSnapshot {
    /// Name of the process.
    pub name: String,
    /// Number of system calls the process has made.
    pub syscall_count: usize,
    /// Number of callbacks that were dropped because the process's queue was
    /// full.
    pub dropped_callback_count: usize,
    /// Number of times the process was restarted.
    pub restart_count: usize,
    /// Number of times the process used up its timeslice.
    pub timeslice_expiration_count: usize,
}

impl ProcessSnapshot {
    /// A copy of the snapshot.
    pub fn duplicate(&self) -> (copy: ProcessSnapshot)
        ensures
            copy == *self,
    {
        ProcessSnapshot {
            name: self.name.clone(),
            syscall_count: self.syscall_count,
            dropped_callback_count: self.dropped_callback_count,
            restart_count: self.restart_count,
            timeslice_expiration_count: self.timeslice_expiration_count,
        }
    }
}

/// The snapshots of the loaded processes among `slots`, in slot order.
pub open spec fn loaded_processes(slots: Seq<Option<ProcessSnapshot>>) -> Seq<ProcessSnapshot>
    decreases slots.len(),
{
    if slots.len() == 0 {
        Seq::empty()
    } else {
        let before = loaded_processes(slots.drop_last());
        match slots.last() {
            Some(process) => before.push(process),
            None => before,
        }
    }
}

/// The process table as the diagnostics see it.
pub struct Introspection {
    slots: Vec<Option<ProcessSnapshot>>,
}

impl View for Introspection {
    type V = Seq<Option<ProcessSnapshot>>;

    closed spec fn view(&self) -> Seq<Option<ProcessSnapshot>> {
        self.slots@
    }
}

impl Introspection {
    /// The table with the given slots.
    pub fn new(slots: Vec<Option<ProcessSnapshot>>) -> (inspector: Introspection)
        ensures
            inspector@ == slots@,
    {
        Introspection { slots }
    }

    /// Number of process slots, loaded or not.
    pub fn slot_count(&self) -> (count: usize)
        ensures
            count == self@.len(),
    {
        self.slots.len()
    }

    /// Number of loaded processes.
    pub fn number_loaded_processes(&self) -> (count: usize)
        ensures
            count == loaded_processes(self@).len(),
    {
        let mut count: usize = 0;
        let mut i: usize = 0;
        while i < self.slots.len()
            invariant
                i <= self.slots.len(),
                count == loaded_processes(self.slots@.take(i as int)).len(),
                count <= i,
            decreases self.slots.len() - i,
        {
            proof {
                let upto = self.slots@.take(i + 1);
                assert(upto.drop_last() =~= self.slots@.take(i as int));
                assert(upto.last() == self.slots@[i as int]);
            }
            if self.slots[i].is_some() {
                count = count + 1;
            }
            i = i + 1;
        }
        assert(self.slots@.take(i as int) =~= self.slots@);
        count
    }

    /// The snapshots of the loaded processes, in slot order.
    pub fn each_app(&self) -> (apps: Vec<ProcessSnapshot>)
        ensures
            apps@ == loaded_processes(self@),
    {
        let mut apps: Vec<ProcessSnapshot> = Vec::new();
        let mut i: usize = 0;
        while i < self.slots.len()
            invariant
                i <= self.slots.len(),
                apps@ == loaded_processes(self.slots@.take(i as int)),
            decreases self.slots.len() - i,
        {
            proof {
                let upto = self.slots@.take(i + 1);
                assert(upto.drop_last() =~= self.slots@.take(i as int));
                assert(upto.last() == self.slots@[i as int]);
            }
            match &self.slots[i] {
                Some(process) => {
                    apps.push(process.duplicate());
                },
                None => {},
            }
            i = i + 1;
        }
        assert(self.slots@.take(i as int) =~= self.slots@);
        apps
    }
}

} // verus!
