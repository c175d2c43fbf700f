//! The decisions of a pipeline worker: connect, then poll, transform, write
//! and acknowledge batch after batch until stopped, then flush and disconnect.
//! The worker is a state machine: each step takes the outcome of the last
//! action and names the next one.
use vstd::prelude::*;
use crate::batch::{Batch, BatchView};
use crate::config::PipelineConfig;
use crate::engine::stop_requested;
use crate::error::PipelineError;
use crate::rate_limit::limits_enabled;
use crate::text::{chars_of, copy_string, decimal, decimal_chars, push_chars, string_from_chars};
use crate::transform::{chain_spec, outcome_matches, TransformChain};
use crate::types::{Checkpoint, WriteReceipt};

verus! {

/// Where the worker stands.
#[derive(Debug, Clone, Copy, PartialEq, Eq, Structural)]
pub enum WorkerPhase {
    /// Not started.
    Start,
    /// Waiting for the source to connect.
    ConnectingSource,
    /// Waiting for the sink to connect.
    ConnectingSink,
    /// Waiting for a source permit.
    AwaitingSourcePermit,
    /// Waiting for a polled batch.
    Polling,
    /// Backing off before the next poll.
    Sleeping,
    /// Waiting for a sink permit, with a transformed batch to write.
    AwaitingSinkPermit,
    /// Waiting for the write of a batch.
    Writing,
    /// Waiting for the source to acknowledge a checkpoint.
    Acknowledging,
    /// Waiting for the sink to flush.
    Flushing,
    /// Waiting for the sink to disconnect.
    DisconnectingSink,
    /// Waiting for the source to disconnect.
    DisconnectingSource,
    /// Done; the run's outcome has been given.
    Finished,
}

/// The outcome of the last action.
pub enum WorkerEvent {
    /// The run begins.
    Begin,
    /// A connect, acknowledge, flush or disconnect finished.
    Done(Result<(), PipelineError>),
    /// A permit was granted or a back-off elapsed.
    Ready,
    /// A poll finished.
    Polled(Result<Batch, PipelineError>),
    /// A write finished.
    Written(Result<WriteReceipt, PipelineError>),
}

/// What to do next.
pub enum WorkerAction {
    ConnectSource,
    ConnectSink,
    /// Wait for a source permit (at once where rates are not limited).
    AwaitSourcePermit,
    Poll,
    /// Wait this many milliseconds.
    Sleep(u64),
    /// Wait for a sink permit (at once where rates are not limited).
    AwaitSinkPermit,
    Write(Batch),
    Acknowledge(Checkpoint),
    Flush,
    DisconnectSink,
    DisconnectSource,
    /// The run is over, with this outcome.
    Finish(Result<(), PipelineError>),
}

/// Which event each phase waits for.
pub open spec fn expects(phase: WorkerPhase, e: WorkerEvent) -> bool {
    match phase {
        WorkerPhase::Start => e is Begin,
        WorkerPhase::ConnectingSource | WorkerPhase::ConnectingSink | WorkerPhase::Acknowledging
        | WorkerPhase::Flushing | WorkerPhase::DisconnectingSink
        | WorkerPhase::DisconnectingSource => e is Done,
        WorkerPhase::AwaitingSourcePermit | WorkerPhase::Sleeping
        | WorkerPhase::AwaitingSinkPermit => e is Ready,
        WorkerPhase::Polling => e is Polled,
        WorkerPhase::Writing => e is Written,
        WorkerPhase::Finished => false,
    }
}

/// Where the top of the loop leads: to flushing where the stop signal is
/// raised, to waiting for a source permit otherwise.
pub open spec fn loop_top_phase(stop: bool) -> WorkerPhase {
    if stop {
        WorkerPhase::Flushing
    } else {
        WorkerPhase::AwaitingSourcePermit
    }
}

/// Whether action `r` and phase `p` are those of the top of the loop with
/// the stop signal `stop`.
pub open spec fn at_loop_top(r: WorkerAction, p: WorkerPhase, stop: bool) -> bool {
    &&& p == loop_top_phase(stop)
    &&& stop ==> r is Flush
    &&& !stop ==> r is AwaitSourcePermit
}

/// The phase after an action of phase `p` that waits for `Done` succeeded,
/// the stop signal reading `stop`.
pub open spec fn after_done(p: WorkerPhase, stop: bool) -> WorkerPhase {
    match p {
        WorkerPhase::ConnectingSource => WorkerPhase::ConnectingSink,
        WorkerPhase::ConnectingSink | WorkerPhase::Acknowledging => loop_top_phase(stop),
        WorkerPhase::Flushing => WorkerPhase::DisconnectingSink,
        WorkerPhase::DisconnectingSink => WorkerPhase::DisconnectingSource,
        _ => WorkerPhase::Finished,
    }
}

/// The offset of the checkpoint after `n` batches.
pub open spec fn batch_offset(n: nat) -> Seq<char> {
    "batch_"@ + decimal(n)
}

/// Runs a single pipeline's data flow.
pub struct PipelineWorker {
    config: PipelineConfig,
    transforms: TransformChain,
    cancel_rx: tokio::sync::watch::Receiver<bool>,
    rate_limited: bool,
    phase: WorkerPhase,
    pending: Option<Batch>,
    pending_rows: u64,
    total_records: u64,
    batch_count: u64,
}

impl PipelineWorker {
    /// A worker for `config` that applies `transforms` and stops when
    /// `cancel_rx` is raised. Rates are limited where the configuration sets
    /// a maximum.
    pub fn new(
        config: PipelineConfig,
        transforms: TransformChain,
        cancel_rx: tokio::sync::watch::Receiver<bool>,
    ) -> (r: PipelineWorker)
        ensures
            r.wf(),
            r.flush_interval() == config.flags.batch_flush_interval_ms,
            r.phase() == WorkerPhase::Start,
            r.total() == 0,
            r.batches() == 0,
            r.pipeline_id() == config.pipeline_id@,
            r.chain() == transforms.steps(),
            r.limited() == (config.rate_limits.max_source_tps > 0
                || config.rate_limits.max_sink_tps > 0),
    {
        let rate_limited = limits_enabled(&config.rate_limits);
        PipelineWorker {
            config,
            transforms,
            cancel_rx,
            rate_limited,
            phase: WorkerPhase::Start,
            pending: None,
            pending_rows: 0,
            total_records: 0,
            batch_count: 0,
        }
    }

    pub closed spec fn phase(&self) -> WorkerPhase {
        self.phase
    }

    /// A transformed batch is held exactly while a sink permit is awaited, and
    /// the rows awaiting acknowledgement can be counted.
    pub closed spec fn wf(&self) -> bool {
        &&& (self.phase == WorkerPhase::AwaitingSinkPermit) <==> self.pending is Some
        &&& self.phase == WorkerPhase::Acknowledging ==> self.total_records + self.pending_rows
            <= u64::MAX
    }

    /// The transformed batch waiting to be written.
    pub closed spec fn pending_batch(&self) -> Option<BatchView> {
        match self.pending {
            Some(b) => Some(b@),
            None => None,
        }
    }

    /// How long an empty poll backs off, in milliseconds.
    pub closed spec fn flush_interval(&self) -> u64 {
        self.config.flags.batch_flush_interval_ms
    }

    /// Rows written by the batches acknowledged so far.
    pub closed spec fn total(&self) -> nat {
        self.total_records as nat
    }

    /// The number of batches acknowledged so far.
    pub closed spec fn batches(&self) -> nat {
        self.batch_count as nat
    }

    /// Rows of the batch whose checkpoint awaits acknowledgement.
    pub closed spec fn unacknowledged(&self) -> nat {
        self.pending_rows as nat
    }

    pub closed spec fn pipeline_id(&self) -> Seq<char> {
        self.config.pipeline_id@
    }

    pub closed spec fn chain(&self) -> Seq<crate::transform::Transform> {
        self.transforms.steps()
    }

    pub closed spec fn limited(&self) -> bool {
        self.rate_limited
    }

    /// The phase.
    pub fn current_phase(&self) -> (r: WorkerPhase)
        ensures
            r == self.phase(),
    {
        self.phase
    }

    /// Whether rates are limited.
    pub fn uses_rate_limiter(&self) -> (r: bool)
        ensures
            r == self.limited(),
    {
        self.rate_limited
    }

    /// The configuration.
    pub fn config(&self) -> (r: &PipelineConfig)
        ensures
            r.pipeline_id@ == self.pipeline_id(),
    {
        &self.config
    }

    /// Whether the worker's stop signal has been raised (read from its
    /// receiver; the value depends on when the engine raised it). This is the
    /// `stop` to hand to `step`.
    pub fn stop_signalled(&self) -> (r: bool) {
        stop_requested(&self.cancel_rx)
    }

    /// Rows written and batches acknowledged so far.
    pub fn counters(&self) -> (r: (u64, u64))
        ensures
            r.0 == self.total(),
            r.1 == self.batches(),
    {
        (self.total_records, self.batch_count)
    }

    /// The top of the loop: flush where the stop signal is raised, otherwise
    /// wait for a source permit.
    fn loop_top(&mut self, stop: bool) -> (r: WorkerAction)
        ensures
            stop ==> (r is Flush && final(self).phase() == WorkerPhase::Flushing),
            !stop ==> (r is AwaitSourcePermit && final(self).phase()
                == WorkerPhase::AwaitingSourcePermit),
            final(self).total() == old(self).total(),
            final(self).batches() == old(self).batches(),
            final(self).pipeline_id() == old(self).pipeline_id(),
            final(self).chain() == old(self).chain(),
            final(self).limited() == old(self).limited(),
            final(self).flush_interval() == old(self).flush_interval(),
            final(self).pending == old(self).pending,
    {
        if stop {
            self.phase = WorkerPhase::Flushing;
            WorkerAction::Flush
        } else {
            self.phase = WorkerPhase::AwaitingSourcePermit;
            WorkerAction::AwaitSourcePermit
        }
    }

    fn finish(&mut self, outcome: Result<(), PipelineError>) -> (r: WorkerAction)
        ensures
            final(self).phase() == WorkerPhase::Finished,
            r == WorkerAction::Finish(outcome),
            final(self).total() == old(self).total(),
            final(self).batches() == old(self).batches(),
            final(self).pipeline_id() == old(self).pipeline_id(),
            final(self).chain() == old(self).chain(),
            final(self).limited() == old(self).limited(),
            final(self).flush_interval() == old(self).flush_interval(),
            final(self).pending == old(self).pending,
    {
        self.phase = WorkerPhase::Finished;
        WorkerAction::Finish(outcome)
    }

    /// Takes the outcome of the last action and names the next one:
    /// - connecting: the source, then the sink; a failure ends the run with
    ///   that error;
    /// - at the top of the loop the stop signal is read: raised, the sink is
    ///   flushed; otherwise a source permit is awaited, then a batch polled;
    /// - a failed poll backs off 1000 ms, an empty batch backs off the
    ///   configured flush interval; both return to the top of the loop;
    /// - a batch goes through the transform chain (a failure ends the run),
    ///   a sink permit is awaited, and the transformed batch is written (a
    ///   failure ends the run);
    /// - after a write the checkpoint `batch_<n>` is acknowledged, `n` being
    ///   the number of batches acknowledged before; once acknowledged the
    ///   rows written are counted and the loop goes on (a failure ends the
    ///   run);
    /// - stopping: flush, disconnect the sink, then the source; a failure
    ///   ends the run with that error, and once all succeed the run ends well.
    pub fn step(&mut self, event: WorkerEvent, stop: bool) -> (r: WorkerAction)
        requires
            old(self).wf(),
            expects(old(self).phase(), event),
            event matches WorkerEvent::Written(Ok(receipt)) ==> old(self).total()
                + receipt.rows_written <= u64::MAX,
            old(self).phase() == WorkerPhase::Acknowledging ==> old(self).batches() < u64::MAX,
        ensures
            final(self).wf(),
            final(self).pipeline_id() == old(self).pipeline_id(),
            final(self).chain() == old(self).chain(),
            final(self).limited() == old(self).limited(),
            final(self).flush_interval() == old(self).flush_interval(),
            event matches WorkerEvent::Done(Ok(_)) ==> final(self).phase() == after_done(
                old(self).phase(),
                stop,
            ),
            // counters move only on acknowledgement
            (old(self).phase() == WorkerPhase::Acknowledging && event matches WorkerEvent::Done(Ok(
                _,
            ))) ==> (final(self).batches() == old(self).batches() + 1 && final(self).total()
                == old(self).total() + old(self).unacknowledged()),
            !(old(self).phase() == WorkerPhase::Acknowledging && event matches WorkerEvent::Done(Ok(
                _,
            ))) ==> (final(self).batches() == old(self).batches() && final(self).total() == old(self).total()),
            match old(self).phase() {
                WorkerPhase::Start => r is ConnectSource && final(self).phase()
                    == WorkerPhase::ConnectingSource,
                WorkerPhase::ConnectingSource => match event {
                    WorkerEvent::Done(Ok(_)) => r is ConnectSink && final(self).phase()
                        == WorkerPhase::ConnectingSink,
                    WorkerEvent::Done(Err(e)) => r == WorkerAction::Finish(Err(e)) && final(self).phase()
                        == WorkerPhase::Finished,
                    _ => false,
                },
                WorkerPhase::ConnectingSink => match event {
                    WorkerEvent::Done(Ok(_)) => at_loop_top(r, final(self).phase(), stop),
                    WorkerEvent::Done(Err(e)) => r == WorkerAction::Finish(Err(e)) && final(self).phase()
                        == WorkerPhase::Finished,
                    _ => false,
                },
                WorkerPhase::AwaitingSourcePermit => r is Poll && final(self).phase()
                    == WorkerPhase::Polling,
                WorkerPhase::Polling => match event {
                    WorkerEvent::Polled(Err(_)) => r == WorkerAction::Sleep(1000) && final(self).phase() == WorkerPhase::Sleeping,
                    WorkerEvent::Polled(Ok(b)) => if b@.num_rows == 0 {
                        r == WorkerAction::Sleep(old(self).flush_interval())
                            && final(self).phase() == WorkerPhase::Sleeping
                    } else {
                        match chain_spec(old(self).chain(), b@) {
                            Ok(v) => r is AwaitSinkPermit && final(self).phase()
                                == WorkerPhase::AwaitingSinkPermit && final(self).pending_batch()
                                == Some(v),
                            Err(_) => r matches WorkerAction::Finish(out) && outcome_matches(
                                match out {
                                    Ok(_) => Ok(b),
                                    Err(e) => Err(e),
                                },
                                chain_spec(old(self).chain(), b@),
                            ) && final(self).phase() == WorkerPhase::Finished,
                        }
                    },
                    _ => false,
                },
                WorkerPhase::Sleeping => at_loop_top(r, final(self).phase(), stop),
                WorkerPhase::AwaitingSinkPermit => final(self).phase() == WorkerPhase::Writing
                    && (r matches WorkerAction::Write(w) && old(self).pending_batch() == Some(w@)),
                WorkerPhase::Writing => match event {
                    WorkerEvent::Written(Ok(receipt)) => final(self).phase()
                        == WorkerPhase::Acknowledging && final(self).unacknowledged()
                        == receipt.rows_written && (r matches WorkerAction::Acknowledge(c)
                        && c.pipeline_id@ == old(self).pipeline_id() && c.offset@ == batch_offset(
                        old(self).batches(),
                    )),
                    WorkerEvent::Written(Err(e)) => r == WorkerAction::Finish(Err(e)) && final(self).phase() == WorkerPhase::Finished,
                    _ => false,
                },
                WorkerPhase::Acknowledging => match event {
                    WorkerEvent::Done(Ok(_)) => at_loop_top(r, final(self).phase(), stop),
                    WorkerEvent::Done(Err(e)) => r == WorkerAction::Finish(Err(e)) && final(self).phase()
                        == WorkerPhase::Finished,
                    _ => false,
                },
                WorkerPhase::Flushing => match event {
                    WorkerEvent::Done(Ok(_)) => r is DisconnectSink && final(self).phase()
                        == WorkerPhase::DisconnectingSink,
                    WorkerEvent::Done(Err(e)) => r == WorkerAction::Finish(Err(e)) && final(self).phase()
                        == WorkerPhase::Finished,
                    _ => false,
                },
                WorkerPhase::DisconnectingSink => match event {
                    WorkerEvent::Done(Ok(_)) => r is DisconnectSource && final(self).phase()
                        == WorkerPhase::DisconnectingSource,
                    WorkerEvent::Done(Err(e)) => r == WorkerAction::Finish(Err(e)) && final(self).phase()
                        == WorkerPhase::Finished,
                    _ => false,
                },
                WorkerPhase::DisconnectingSource => match event {
                    WorkerEvent::Done(Ok(_)) => r matches WorkerAction::Finish(Ok(_)) && final(self).phase() == WorkerPhase::Finished,
                    WorkerEvent::Done(Err(e)) => r == WorkerAction::Finish(Err(e)) && final(self).phase()
                        == WorkerPhase::Finished,
                    _ => false,
                },
                WorkerPhase::Finished => false,
            },
    {
        match self.phase {
            WorkerPhase::Start => {
                self.phase = WorkerPhase::ConnectingSource;
                WorkerAction::ConnectSource
            },
            WorkerPhase::ConnectingSource => match event {
                WorkerEvent::Done(Ok(())) => {
                    self.phase = WorkerPhase::ConnectingSink;
                    WorkerAction::ConnectSink
                },
                WorkerEvent::Done(Err(e)) => self.finish(Err(e)),
                _ => self.finish(Ok(())),
            },
            WorkerPhase::ConnectingSink => match event {
                WorkerEvent::Done(Ok(())) => self.loop_top(stop),
                WorkerEvent::Done(Err(e)) => self.finish(Err(e)),
                _ => self.finish(Ok(())),
            },
            WorkerPhase::AwaitingSourcePermit => {
                self.phase = WorkerPhase::Polling;
                WorkerAction::Poll
            },
            WorkerPhase::Polling => match event {
                WorkerEvent::Polled(Err(_)) => {
                    self.phase = WorkerPhase::Sleeping;
                    WorkerAction::Sleep(1000)
                },
                WorkerEvent::Polled(Ok(b)) => {
                    if b.num_rows() == 0 {
                        self.phase = WorkerPhase::Sleeping;
                        WorkerAction::Sleep(self.config.flags.batch_flush_interval_ms)
                    } else {
                        match self.transforms.apply(b) {
                            Ok(t) => {
                                self.pending = Some(t);
                                self.phase = WorkerPhase::AwaitingSinkPermit;
                                WorkerAction::AwaitSinkPermit
                            },
                            Err(e) => self.finish(Err(e)),
                        }
                    }
                },
                _ => self.finish(Ok(())),
            },
            WorkerPhase::Sleeping => self.loop_top(stop),
            WorkerPhase::AwaitingSinkPermit => {
                let mut taken: Option<Batch> = None;
                std::mem::swap(&mut taken, &mut self.pending);
                match taken {
                    Some(t) => {
                        self.phase = WorkerPhase::Writing;
                        WorkerAction::Write(t)
                    },
                    None => self.finish(Ok(())),
                }
            },
            WorkerPhase::Writing => match event {
                WorkerEvent::Written(Ok(receipt)) => {
                    self.pending_rows = receipt.rows_written;
                    let mut offset = chars_of("batch_");
                    push_chars(&mut offset, &decimal_chars(self.batch_count));
                    let checkpoint = Checkpoint::new(
                        copy_string(&self.config.pipeline_id),
                        string_from_chars(&offset),
                    );
                    self.phase = WorkerPhase::Acknowledging;
                    WorkerAction::Acknowledge(checkpoint)
                },
                WorkerEvent::Written(Err(e)) => self.finish(Err(e)),
                _ => self.finish(Ok(())),
            },
            WorkerPhase::Acknowledging => match event {
                WorkerEvent::Done(Ok(())) => {
                    self.total_records = self.total_records + self.pending_rows;
                    self.batch_count = self.batch_count + 1;
                    self.loop_top(stop)
                },
                WorkerEvent::Done(Err(e)) => self.finish(Err(e)),
                _ => self.finish(Ok(())),
            },
            WorkerPhase::Flushing => match event {
                WorkerEvent::Done(Ok(())) => {
                    self.phase = WorkerPhase::DisconnectingSink;
                    WorkerAction::DisconnectSink
                },
                WorkerEvent::Done(Err(e)) => self.finish(Err(e)),
                _ => self.finish(Ok(())),
            },
            WorkerPhase::DisconnectingSink => match event {
                WorkerEvent::Done(Ok(())) => {
                    self.phase = WorkerPhase::DisconnectingSource;
                    WorkerAction::DisconnectSource
                },
                WorkerEvent::Done(Err(e)) => self.finish(Err(e)),
                _ => self.finish(Ok(())),
            },
            WorkerPhase::DisconnectingSource => match event {
                WorkerEvent::Done(Ok(())) => self.finish(Ok(())),
                WorkerEvent::Done(Err(e)) => self.finish(Err(e)),
                _ => self.finish(Ok(())),
            },
            WorkerPhase::Finished => self.finish(Ok(())),
        }
    }
}

} // verus!
