//! The lifecycle of a connection: created, started, registered at the engine,
//! stopped.
//!
//! The connection decides; the caller acts. Starting tells the caller to run
//! the engine's loop and the sweeper, and whether to wait for the engine's
//! registration. Stopping tells it what to shut down and to wait for.
use vstd::prelude::*;
use crate::connection::Connection;
use crate::model::Lifecycle;

verus! {

/// What the caller has to do to start a connection.
#[derive(Clone, Copy, PartialEq, Eq, Debug, Structural)]
pub struct StartPlan {
    /// Run the engine's processing loop on a thread of its own.
    pub run_engine: bool,
    /// Run the sweeper, which ticks once per time unit.
    pub run_sweeper: bool,
    /// Wait until the engine reports that the application is registered.
    pub wait_for_connected: bool,
}

/// What the caller has to do to stop a connection.
#[derive(Clone, Copy, PartialEq, Eq, Debug, Structural)]
pub struct StopPlan {
    /// Tell the sweeper to end, and wait for it.
    pub stop_sweeper: bool,
    /// Ask the engine to leave its processing loop.
    pub stop_engine: bool,
    /// Wait for the thread of the engine's loop to end, then report it with
    /// [`Connection::finish_stop`].
    pub join_engine: bool,
}

impl<S> Connection<S> {
    /// Where the connection stands.
    pub fn lifecycle(&self) -> (state: Lifecycle)
        ensures
            state == self@.lifecycle,
    {
        self.lifecycle
    }

    /// True if the engine's last report was that the application is
    /// registered.
    pub fn is_connected(&self) -> (connected: bool)
        ensures
            connected == self@.connected,
    {
        self.connected
    }

    /// Takes note that the engine reports the application as registered
    /// (`is_connected`) or as no longer registered. Nothing else happens
    /// here; whoever waits for the registration has to be woken by the
    /// caller.
    pub fn on_state_changed(&mut self, is_connected: bool)
        requires
            old(self).wf(),
        ensures
            final(self).wf(),
            final(self)@ == old(self)@.state_changed(is_connected),
    {
        self.connected = is_connected;
        self.lifecycle =
        match self.lifecycle {
            Lifecycle::Starting | Lifecycle::Connected => if is_connected {
                Lifecycle::Connected
            } else {
                Lifecycle::Starting
            },
            other => other,
        };
        proof {
            old(self)@.lemma_wf_of_registries(final(self)@);
        }
    }

    /// Starts the connection. The caller has to run the engine's loop and
    /// the sweeper, and to wait for the registration if `wait_connected` asks
    /// for it and the engine has not reported it yet.
    ///
    /// A connection is started once: starting it again is a defect of the
    /// caller.
    pub fn start(&mut self, wait_connected: bool) -> (plan: StartPlan)
        requires
            old(self).wf(),
            old(self)@.lifecycle is Created,
        ensures
            final(self).wf(),
            final(self)@ == old(self)@.start(),
            plan == (StartPlan {
                run_engine: true,
                run_sweeper: true,
                wait_for_connected: wait_connected && !old(self)@.connected,
            }),
    {
        self.lifecycle =
        if self.connected {
            Lifecycle::Connected
        } else {
            Lifecycle::Starting
        };
        proof {
            old(self)@.lemma_wf_of_registries(final(self)@);
        }
        StartPlan {
            run_engine: true,
            run_sweeper: true,
            wait_for_connected: wait_connected && !self.connected,
        }
    }

    /// Stops the connection. The engine is always asked to leave its loop,
    /// which does no harm where it does not run. A connection that runs has
    /// its sweeper stopped and the thread of the engine's loop waited for,
    /// and is stopping until [`Connection::finish_stop`]. Stopping a
    /// connection that does not run changes nothing.
    pub fn stop(&mut self) -> (plan: StopPlan)
        requires
            old(self).wf(),
        ensures
            final(self).wf(),
            final(self)@ == old(self)@.stop(),
            plan == (StopPlan {
                stop_sweeper: old(self)@.running(),
                stop_engine: true,
                join_engine: old(self)@.running(),
            }),
    {
        let running = match self.lifecycle {
            Lifecycle::Starting | Lifecycle::Connected => true,
            _ => false,
        };
        if running {
            self.lifecycle = Lifecycle::Stopping;
        }
        proof {
            old(self)@.lemma_wf_of_registries(final(self)@);
        }
        StopPlan { stop_sweeper: running, stop_engine: true, join_engine: running }
    }

    /// Takes note that the sweeper and the engine's loop have ended: a
    /// stopping connection is stopped now.
    pub fn finish_stop(&mut self)
        requires
            old(self).wf(),
        ensures
            final(self).wf(),
            final(self)@ == old(self)@.finish_stop(),
    {
        match self.lifecycle {
            Lifecycle::Stopping => {
                self.lifecycle = Lifecycle::Stopped;
            },
            _ => {},
        }
        proof {
            old(self)@.lemma_wf_of_registries(final(self)@);
        }
    }
}

} // verus!
