//! The sampling engine: its life cycle, the workers it asks for, and the
//! sink into which the workers deliver their samples.
//!
//! The engine itself starts no thread and reads no counter. It decides. It
//! says which workers are to run, whether a worker may go on, what becomes
//! of a worker's reading, and how long the worker is to pause. Whoever
//! drives the engine runs the workers and hands their readings in.

use vstd::prelude::*;
use crate::dataset::DataSet;
use crate::sample::{Sample, SamplingError};

verus! {

/// The sampling period where none is given, in milliseconds.
pub const DEFAULT_PERIOD_MS: u64 = 50;

/// A counter source that a worker reads.
#[derive(Clone, Copy, Debug, PartialEq, Eq)]
pub enum Source {
    /// The CPU time of every core.
    Cpu,
    /// The energy counters of every socket.
    Rapl,
    /// The CPU time of every thread of the process `pid`.
    Task { pid: i32 },
}

/// A worker that the engine asked for: it reads `source` once per period
/// for as long as the session `session` runs.
#[derive(Clone, Copy, Debug, PartialEq, Eq)]
pub struct Worker {
    pub source: Source,
    pub session: u64,
}

/// The sampling engine for one process.
#[derive(Debug)]
pub struct Sampler {
    pid: i32,
    period: u64,
    is_running: bool,
    session: u64,
    sink: Vec<Sample>,
}

/// What an engine is, as far as its behaviour goes.
pub struct SamplerState {
    /// The process whose threads are sampled.
    pub pid: i32,
    /// The sampling period in milliseconds.
    pub period: u64,
    /// Whether a session is running.
    pub running: bool,
    /// The number of the session that runs, or that ran last.
    pub session: u64,
    /// The samples delivered and not yet read, in the order of delivery.
    pub sink: Seq<Sample>,
}

impl SamplerState {
    /// An engine that has not run yet.
    pub open spec fn idle(pid: i32, period: u64) -> SamplerState {
        SamplerState { pid, period, running: false, session: 0, sink: Seq::empty() }
    }

    /// The number of the session after this one.
    pub open spec fn next_session(self) -> u64 {
        if self.session == u64::MAX {
            0
        } else {
            (self.session + 1) as u64
        }
    }

    /// The engine after `start_for(pid, period)`: unchanged where it runs
    /// already, else running a new session for `pid`.
    pub open spec fn started_for(self, pid: i32, period: u64) -> SamplerState {
        if self.running {
            self
        } else {
            SamplerState { pid, period, running: true, session: self.next_session(), sink: self.sink }
        }
    }

    /// The workers that `start_for(pid, period)` asks for: none where the
    /// engine runs already, else one for each counter source.
    pub open spec fn spawned_for(self, pid: i32) -> Seq<Worker> {
        if self.running {
            Seq::empty()
        } else {
            seq![
                Worker { source: Source::Cpu, session: self.next_session() },
                Worker { source: Source::Rapl, session: self.next_session() },
                Worker { source: Source::Task { pid }, session: self.next_session() },
            ]
        }
    }

    /// The engine after `start()`.
    pub open spec fn started(self) -> SamplerState {
        self.started_for(self.pid, self.period)
    }

    /// The workers that `start()` asks for.
    pub open spec fn spawned(self) -> Seq<Worker> {
        self.spawned_for(self.pid)
    }

    /// The engine after `stop()`.
    pub open spec fn stopped(self) -> SamplerState {
        SamplerState { running: false, ..self }
    }

    /// Whether `worker` may go on: its session is the one that runs.
    pub open spec fn admits(self, worker: Worker) -> bool {
        self.running && worker.session == self.session
    }

    /// Whether a reading of `worker` is kept: it is a sample, and the
    /// worker belongs to the session that runs or that ran last.
    pub open spec fn keeps(self, worker: Worker, outcome: Result<Sample, SamplingError>) -> bool {
        outcome is Ok && worker.session == self.session
    }

    /// The engine after `worker` delivered `outcome`.
    pub open spec fn collected(
        self,
        worker: Worker,
        outcome: Result<Sample, SamplingError>,
    ) -> SamplerState {
        if self.keeps(worker, outcome) {
            SamplerState { sink: self.sink.push(outcome->Ok_0), ..self }
        } else {
            self
        }
    }

    /// How long a worker pauses after a reading that took `elapsed`
    /// milliseconds: what is left of the period, and nothing where the
    /// reading took the whole period or more.
    pub open spec fn pause(self, elapsed: u64) -> u64 {
        if elapsed >= self.period {
            0
        } else {
            (self.period - elapsed) as u64
        }
    }

    /// The engine after everything in the sink was read.
    pub open spec fn drained(self) -> SamplerState {
        SamplerState { sink: Seq::empty(), ..self }
    }

    /// Whether a read in service mode gives data: the engine does not
    /// run, and there is something to give.
    pub open spec fn serves(self) -> bool {
        !self.running && self.sink.len() > 0
    }

    /// The engine after a read in service mode.
    pub open spec fn served(self) -> SamplerState {
        if self.running {
            self
        } else {
            self.drained()
        }
    }
}

impl View for Sampler {
    type V = SamplerState;

    closed spec fn view(&self) -> SamplerState {
        SamplerState {
            pid: self.pid,
            period: self.period,
            running: self.is_running,
            session: self.session,
            sink: self.sink@,
        }
    }
}

impl Sampler {
    /// An engine for the calling process, whose id is `pid`, with the
    /// default period.
    pub fn new(pid: i32) -> (sampler: Sampler)
        ensures
            sampler@ == SamplerState::idle(pid, DEFAULT_PERIOD_MS),
    {
        Sampler::with_period(pid, DEFAULT_PERIOD_MS)
    }

    /// An engine for the calling process, whose id is `pid`.
    pub fn with_period(pid: i32, period: u64) -> (sampler: Sampler)
        ensures
            sampler@ == SamplerState::idle(pid, period),
    {
        Sampler::for_process_with_period(pid, period)
    }

    /// An engine for the process `pid`, with the default period.
    pub fn for_process(pid: i32) -> (sampler: Sampler)
        ensures
            sampler@ == SamplerState::idle(pid, DEFAULT_PERIOD_MS),
    {
        Sampler::for_process_with_period(pid, DEFAULT_PERIOD_MS)
    }

    /// An engine for the process `pid` that samples every `period`
    /// milliseconds.
    pub fn for_process_with_period(pid: i32, period: u64) -> (sampler: Sampler)
        ensures
            sampler@ == SamplerState::idle(pid, period),
    {
        Sampler { pid, period, is_running: false, session: 0, sink: Vec::new() }
    }

    /// The process whose threads are sampled.
    pub fn pid(&self) -> (pid: i32)
        ensures
            pid == self@.pid,
    {
        self.pid
    }

    /// The sampling period in milliseconds.
    pub fn period(&self) -> (period: u64)
        ensures
            period == self@.period,
    {
        self.period
    }

    /// Whether a session is running.
    pub fn is_running(&self) -> (running: bool)
        ensures
            running == self@.running,
    {
        self.is_running
    }

    /// The number of samples delivered and not yet read.
    pub fn pending(&self) -> (n: usize)
        ensures
            n == self@.sink.len(),
    {
        self.sink.len()
    }

    /// Starts a session for the process `pid` with the period `period`,
    /// and returns the workers to run: one for each counter source. Where
    /// a session runs already nothing changes and no worker is returned.
    pub fn start_for(&mut self, pid: i32, period: u64) -> (workers: Vec<Worker>)
        ensures
            final(self)@ == old(self)@.started_for(pid, period),
            workers@ == old(self)@.spawned_for(pid),
    {
        let mut workers: Vec<Worker> = Vec::new();
        if self.is_running {
            return workers;
        }
        self.pid = pid;
        self.period = period;
        self.is_running = true;
        self.session = if self.session == u64::MAX {
            0
        } else {
            self.session + 1
        };
        workers.push(Worker { source: Source::Cpu, session: self.session });
        workers.push(Worker { source: Source::Rapl, session: self.session });
        workers.push(Worker { source: Source::Task { pid }, session: self.session });
        assert(workers@ =~= old(self)@.spawned_for(pid));
        workers
    }

    /// Starts a session for the engine's process and returns the workers
    /// to run. Where a session runs already nothing changes and no worker
    /// is returned.
    pub fn start(&mut self) -> (workers: Vec<Worker>)
        ensures
            final(self)@ == old(self)@.started(),
            workers@ == old(self)@.spawned(),
    {
        let pid: i32 = self.pid;
        let period: u64 = self.period;
        self.start_for(pid, period)
    }

    /// Ends the session. The workers learn of it when they next ask
    /// whether they may go on; nothing waits for them.
    pub fn stop(&mut self)
        ensures
            final(self)@ == old(self)@.stopped(),
    {
        self.is_running = false;
    }

    /// Whether `worker` may go on with another reading. A worker asks
    /// before each reading and ends when the answer is no.
    pub fn admits(&self, worker: &Worker) -> (go_on: bool)
        ensures
            go_on == self@.admits(*worker),
    {
        self.is_running && worker.session == self.session
    }

    /// Takes in what `worker` read. A sample goes into the sink behind
    /// all that is there; a failed reading is dropped, and so is the
    /// reading of a worker of an earlier session. Returns whether the
    /// reading was kept.
    pub fn collect(&mut self, worker: &Worker, outcome: Result<Sample, SamplingError>) -> (kept:
        bool)
        ensures
            final(self)@ == old(self)@.collected(*worker, outcome),
            kept == old(self)@.keeps(*worker, outcome),
    {
        if worker.session != self.session {
            return false;
        }
        match outcome {
            Ok(sample) => {
                self.sink.push(sample);
                true
            },
            Err(_) => false,
        }
    }

    /// How many milliseconds a worker pauses after a reading that took
    /// `elapsed` milliseconds.
    pub fn pause_ms(&self, elapsed: u64) -> (pause: u64)
        ensures
            pause == self@.pause(elapsed),
            pause <= self@.period,
            elapsed <= self@.period ==> pause + elapsed == self@.period,
    {
        if elapsed >= self.period {
            0
        } else {
            self.period - elapsed
        }
    }

    /// Takes everything out of the sink, in the order of delivery. This
    /// may be done while the session runs.
    pub fn read(&mut self) -> (samples: Vec<Sample>)
        ensures
            samples@ == old(self)@.sink,
            final(self)@ == old(self)@.drained(),
    {
        let mut samples: Vec<Sample> = Vec::new();
        core::mem::swap(&mut self.sink, &mut samples);
        samples
    }

    /// Reads in service mode: while the session runs, and where nothing
    /// was collected, there is no data and nothing changes. Otherwise
    /// the sink is emptied into a data set.
    pub fn read_data_set(&mut self) -> (data: Option<DataSet>)
        ensures
            final(self)@ == old(self)@.served(),
            data is Some <==> old(self)@.serves(),
            data matches Some(d) ==> d.holds(old(self)@.sink) && d.spec_len() == old(
                self,
            )@.sink.len(),
    {
        if self.is_running {
            return None;
        }
        let samples: Vec<Sample> = self.read();
        if samples.len() == 0 {
            assert(final(self)@.sink =~= old(self)@.sink);
            return None;
        }
        Some(DataSet::from_samples(samples))
    }
}

/// Stopping twice is stopping once.
pub proof fn lemma_stop_idempotent(s: SamplerState)
    ensures
        s.stopped().stopped() == s.stopped(),
        !s.stopped().running,
{
}

/// Starting an engine that runs changes nothing and asks for no worker.
pub proof fn lemma_start_while_running(s: SamplerState, pid: i32, period: u64)
    requires
        s.running,
    ensures
        s.started() == s,
        s.spawned().len() == 0,
        s.started_for(pid, period) == s,
        s.spawned_for(pid).len() == 0,
{
}

/// Starting an idle engine asks for one worker per counter source, all of
/// the new session; starting again, however often, asks for no more.
pub proof fn lemma_start_spawns_once(s: SamplerState)
    requires
        !s.running,
    ensures
        s.started().running,
        s.spawned().len() == 3,
        forall|i: int| 0 <= i < 3 ==> s.started().admits(#[trigger] s.spawned()[i]),
        s.started().spawned().len() == 0,
        s.started().started() == s.started(),
{
}

/// A stopped engine can be started again, and the workers of the session
/// before are not admitted to the new one.
pub proof fn lemma_restart_shuts_out_old_workers(s: SamplerState, worker: Worker)
    requires
        s.running,
        s.admits(worker),
    ensures
        !s.stopped().admits(worker),
        s.stopped().started().running,
        !s.stopped().started().admits(worker),
        s.stopped().started().spawned().len() == 0,
{
}

/// While the engine runs, a read in service mode gives no data and
/// leaves the sink as it is.
pub proof fn lemma_no_data_while_running(s: SamplerState)
    requires
        s.running,
    ensures
        !s.serves(),
        s.served() == s,
{
}

/// Once the engine is stopped, a read in service mode empties the sink,
/// so that the next read gives no data: each sample is read once.
pub proof fn lemma_read_once(s: SamplerState)
    ensures
        s.stopped().served().sink.len() == 0,
        !s.stopped().served().serves(),
        s.stopped().serves() <==> s.sink.len() > 0,
        s.stopped().served().served() == s.stopped().served(),
{
}

} // verus!
