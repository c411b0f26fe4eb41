//! The circuit-breaker for storage that is no longer safe: once tripped,
//! the process takes no further write.

use vstd::prelude::*;
use crate::errors::ShutdownError;

verus! {

/// Watches for unsafe storage and closes the process to requests.
#[derive(Debug, Clone, Copy, PartialEq, Eq)]
pub struct ShutdownSupervisor {
    stopped: bool,
    reads_open: bool,
}

impl ShutdownSupervisor {
    /// Whether unsafe storage has been reported.
    pub closed spec fn stopped(&self) -> bool {
        self.stopped
    }

    /// Whether reads are still answered.
    pub closed spec fn serves_reads(&self) -> bool {
        self.reads_open
    }

    /// The supervisor after each of `signals` was reported, where a signal
    /// says whether memory was then known to agree with the last checkpoint.
    pub open spec fn after_all(&self, signals: Seq<bool>) -> ShutdownSupervisor
        decreases signals.len(),
    {
        if signals.len() == 0 {
            *self
        } else {
            self.after_all(signals.drop_last()).after(signals.last())
        }
    }

    /// The supervisor after unsafe storage was reported once more.
    pub closed spec fn after(&self, memory_consistent: bool) -> ShutdownSupervisor {
        ShutdownSupervisor { stopped: true, reads_open: self.reads_open && memory_consistent }
    }

    /// A supervisor of a process that serves reads and writes.
    pub fn new() -> (r: Self)
        ensures
            !r.stopped(),
            r.serves_reads(),
    {
        ShutdownSupervisor { stopped: false, reads_open: true }
    }

    /// Reports unsafe storage. Writes stop for good; reads go on only if
    /// they were still served and `memory_consistent` says that memory
    /// agrees with the last durable checkpoint.
    pub fn on_unsafe_storage(&mut self, signal: ShutdownError, memory_consistent: bool)
        ensures
            *final(self) == old(self).after(memory_consistent),
            final(self).stopped(),
            final(self).serves_reads() == (old(self).serves_reads() && memory_consistent),
    {
        match signal {
            ShutdownError::UnsafeStorageError => {
                self.stopped = true;
                self.reads_open = self.reads_open && memory_consistent;
            },
        }
    }

    /// Whether a write may be accepted and later reported as successful.
    pub fn accepts_writes(&self) -> (r: bool)
        ensures
            r == !self.stopped(),
    {
        !self.stopped
    }

    /// Whether a read may be answered.
    pub fn accepts_reads(&self) -> (r: bool)
        ensures
            r == self.serves_reads(),
    {
        self.reads_open
    }
}

/// The transition is one-way: after unsafe storage was reported, nothing
/// that is reported later opens the process to writes again, or to reads
/// once they were refused.
pub proof fn lemma_shutdown_is_final(supervisor: ShutdownSupervisor, signals: Seq<bool>)
    ensures
        supervisor.stopped() ==> supervisor.after_all(signals).stopped(),
        signals.len() > 0 ==> supervisor.after_all(signals).stopped(),
        !supervisor.serves_reads() ==> !supervisor.after_all(signals).serves_reads(),
    decreases signals.len(),
{
    if signals.len() > 0 {
        lemma_shutdown_is_final(supervisor, signals.drop_last());
    }
}

} // verus!
