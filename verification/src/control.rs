//! The control surface: start, stop and read as whatever stands in front of the
//! engine calls them. It adds no state of its own to the engine. It gives a
//! session its process and period at the start, and it hands data out only
//! between sessions.

use vstd::prelude::*;
use crate::dataset::DataSet;
use crate::sample::{Sample, SamplingError};
use crate::sampler::{Sampler, SamplerState, Worker};

verus! {

/// The sampling period of a session that is started without one, in
/// milliseconds.
pub const SERVICE_PERIOD_MS: u64 = 100;

/// The period of a session: the one asked for, or the default.
pub open spec fn spec_period_or_default(period: Option<u64>) -> u64 {
    match period {
        Some(p) => p,
        None => SERVICE_PERIOD_MS,
    }
}

/// Start, stop and read in front of one engine.
pub struct ControlSurface {
    engine: Sampler,
}

impl View for ControlSurface {
    type V = SamplerState;

    closed spec fn view(&self) -> SamplerState {
        self.engine@
    }
}

impl ControlSurface {
    /// A control surface whose engine has not run yet.
    pub fn new() -> (surface: ControlSurface)
        ensures
            surface@ == SamplerState::idle(0, SERVICE_PERIOD_MS),
    {
        ControlSurface { engine: Sampler::for_process_with_period(0, SERVICE_PERIOD_MS) }
    }

    /// Whether a session is running.
    pub fn is_running(&self) -> (running: bool)
        ensures
            running == self@.running,
    {
        self.engine.is_running()
    }

    /// Starts a session for the process `pid` and returns the workers to
    /// run. While a session runs the request is turned down: nothing
    /// changes and no worker is returned.
    pub fn start(&mut self, pid: i32, period: Option<u64>) -> (workers: Vec<Worker>)
        ensures
            final(self)@ == old(self)@.started_for(pid, spec_period_or_default(period)),
            workers@ == old(self)@.spawned_for(pid),
            old(self)@.running ==> final(self)@ == old(self)@ && workers@.len() == 0,
    {
        let period: u64 = match period {
            Some(p) => p,
            None => SERVICE_PERIOD_MS,
        };
        self.engine.start_for(pid, period)
    }

    /// Ends the session. Stopping what does not run changes nothing.
    pub fn stop(&mut self)
        ensures
            final(self)@ == old(self)@.stopped(),
            !old(self)@.running ==> final(self)@ == old(self)@,
    {
        self.engine.stop();
    }

    /// Hands out what was collected, grouped by kind. While a session
    /// runs there is no data, and what was collected stays where it is;
    /// there is no data either where nothing was collected. What is
    /// handed out is handed out once.
    pub fn read(&mut self) -> (data: Option<DataSet>)
        ensures
            final(self)@ == old(self)@.served(),
            data is Some <==> old(self)@.serves(),
            data matches Some(d) ==> d.holds(old(self)@.sink) && d.spec_len() == old(
                self,
            )@.sink.len(),
            old(self)@.running ==> data is None && final(self)@ == old(self)@,
            !old(self)@.running ==> final(self)@.sink.len() == 0,
    {
        self.engine.read_data_set()
    }

    /// Whether `worker` may go on with another reading.
    pub fn admits(&self, worker: &Worker) -> (go_on: bool)
        ensures
            go_on == self@.admits(*worker),
    {
        self.engine.admits(worker)
    }

    /// Takes in what `worker` read, and returns whether it was kept.
    pub fn collect(&mut self, worker: &Worker, outcome: Result<Sample, SamplingError>) -> (kept:
        bool)
        ensures
            final(self)@ == old(self)@.collected(*worker, outcome),
            kept == old(self)@.keeps(*worker, outcome),
    {
        self.engine.collect(worker, outcome)
    }

    /// How many milliseconds a worker pauses after a reading that took
    /// `elapsed` milliseconds.
    pub fn pause_ms(&self, elapsed: u64) -> (pause: u64)
        ensures
            pause == self@.pause(elapsed),
    {
        self.engine.pause_ms(elapsed)
    }
}

impl Default for ControlSurface {
    fn default() -> (surface: ControlSurface)
        ensures
            surface@ == SamplerState::idle(0, SERVICE_PERIOD_MS),
    {
        ControlSurface::new()
    }
}

} // verus!
