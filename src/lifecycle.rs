//! The server lifecycle as a state machine: unstarted, starting, running,
//! shutting down and stopped, with every transition a total function. The
//! caller holds it under one lock and performs the work each transition asks
//! for (binding, serving, stopping) outside it.

use vstd::prelude::*;

verus! {

/// Where a server is in its life. A running server carries its bound
/// address and the handle the caller stops it through.
pub enum Phase<A, S> {
    Unstarted,
    Starting,
    Running { address: A, server: S },
    ShuttingDown,
    Stopped,
}

/// The lifecycle of one server: its phase, and whether shutdown has been
/// asked for. The request to shut down is a one-way flag.
pub struct Lifecycle<A, S> {
    pub phase: Phase<A, S>,
    pub shutdown_requested: bool,
}

impl<A, S> Lifecycle<A, S> {
    /// The state that a request to shut down leaves: the flag is set, and a
    /// running server moves to shutting down.
    pub open spec fn after_shutdown(self) -> Self {
        Lifecycle {
            phase: match self.phase {
                Phase::Running { .. } => Phase::ShuttingDown,
                other => other,
            },
            shutdown_requested: true,
        }
    }

    /// The server that a request to shut down hands out to be stopped.
    pub open spec fn server_to_stop(self) -> Option<S> {
        match self.phase {
            Phase::Running { server, .. } => Some(server),
            _ => None,
        }
    }

    /// A lifecycle that has not started and has not been asked to stop.
    pub fn new() -> (r: Self)
        ensures
            r.phase is Unstarted,
            !r.shutdown_requested,
    {
        Lifecycle { phase: Phase::Unstarted, shutdown_requested: false }
    }

    /// Moves from unstarted to starting. Returns whether it did; a server
    /// starts at most once.
    pub fn begin_start(&mut self) -> (r: bool)
        ensures
            r == old(self).phase is Unstarted,
            r ==> final(self).phase is Starting,
            !r ==> final(self).phase == old(self).phase,
            final(self).shutdown_requested == old(self).shutdown_requested,
    {
        match self.phase {
            Phase::Unstarted => {
                self.phase = Phase::Starting;
                true
            },
            _ => false,
        }
    }

    /// Publishes the bound address and the running server. Where the
    /// lifecycle is not starting, nothing changes and the server is handed
    /// back.
    pub fn start_succeeded(&mut self, address: A, server: S) -> (r: Option<S>)
        ensures
            old(self).phase is Starting ==> r is None && final(self).phase == (Phase::Running {
                address,
                server,
            }),
            !(old(self).phase is Starting) ==> r == Some(server) && final(self).phase == old(self).phase,
            final(self).shutdown_requested == old(self).shutdown_requested,
    {
        match self.phase {
            Phase::Starting => {
                self.phase = Phase::Running { address, server };
                None
            },
            _ => Some(server),
        }
    }

    /// Records that binding failed: a starting server is stopped.
    pub fn start_failed(&mut self)
        ensures
            old(self).phase is Starting ==> final(self).phase is Stopped,
            !(old(self).phase is Starting) ==> final(self).phase == old(self).phase,
            final(self).shutdown_requested == old(self).shutdown_requested,
    {
        if let Phase::Starting = self.phase {
            self.phase = Phase::Stopped;
        }
    }

    /// Asks for shutdown. A running server is handed out to be stopped and
    /// the lifecycle moves to shutting down; in any other phase nothing is
    /// handed out, so asking again, or before the server runs, is harmless.
    pub fn begin_shutdown(&mut self) -> (r: Option<S>)
        ensures
            *final(self) == old(self).after_shutdown(),
            r == old(self).server_to_stop(),
    {
        self.shutdown_requested = true;
        let mut phase = Phase::ShuttingDown;
        std::mem::swap(&mut self.phase, &mut phase);
        match phase {
            Phase::Running { address: _, server } => Some(server),
            other => {
                self.phase = other;
                None
            },
        }
    }

    /// Records that the server has stopped serving.
    pub fn finish_shutdown(&mut self)
        ensures
            old(self).phase is ShuttingDown ==> final(self).phase is Stopped,
            !(old(self).phase is ShuttingDown) ==> final(self).phase == old(self).phase,
            final(self).shutdown_requested == old(self).shutdown_requested,
    {
        if let Phase::ShuttingDown = self.phase {
            self.phase = Phase::Stopped;
        }
    }

    /// Whether the server is running.
    pub fn is_running(&self) -> (r: bool)
        ensures
            r == self.phase is Running,
    {
        match self.phase {
            Phase::Running { .. } => true,
            _ => false,
        }
    }

    /// Whether shutdown has been asked for.
    pub fn is_shutdown_requested(&self) -> (r: bool)
        ensures
            r == self.shutdown_requested,
    {
        self.shutdown_requested
    }
}

impl<A: Copy, S> Lifecycle<A, S> {
    /// The bound address, while the server runs.
    pub fn address(&self) -> (r: Option<A>)
        ensures
            match self.phase {
                Phase::Running { address, .. } => r == Some(address),
                _ => r is None,
            },
    {
        match &self.phase {
            Phase::Running { address, .. } => Some(*address),
            _ => None,
        }
    }
}

/// Shutting down twice is shutting down once: the second request changes
/// nothing and hands out no server, so a server is stopped at most once.
pub proof fn lemma_shutdown_is_idempotent<A, S>(l: Lifecycle<A, S>)
    ensures
        l.after_shutdown().after_shutdown() == l.after_shutdown(),
        l.after_shutdown().server_to_stop() is None,
{
}

} // verus!
