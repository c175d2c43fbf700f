//! The registry of pipelines that the engine runs: their configurations,
//! statuses and stop signals.
use vstd::prelude::*;
use crate::config::PipelineConfig;
use crate::error::{error_text, is_config_error, PipelineError};
use crate::text::{chars_of, copy_string, push_str, str_eq, string_from_chars};

verus! {

/// `tokio::sync::watch::Sender`, the sending half of a stop signal.
#[verifier::external_type_specification]
#[verifier::external_body]
#[verifier::reject_recursive_types(T)]
pub struct ExWatchSender<T>(tokio::sync::watch::Sender<T>);

/// `tokio::sync::watch::Receiver`, the receiving half of a stop signal.
#[verifier::external_type_specification]
#[verifier::external_body]
#[verifier::reject_recursive_types(T)]
pub struct ExWatchReceiver<T>(tokio::sync::watch::Receiver<T>);

/// `tokio::sync::watch::channel(false)`: a new stop signal, not yet raised.
#[verifier::external_body]
pub(crate) fn stop_signal() -> (r: (tokio::sync::watch::Sender<bool>, tokio::sync::watch::Receiver<bool>)) {
    tokio::sync::watch::channel(false)
}

/// `Sender::send(true)`: raises the stop signal for the worker that listens
/// (the send fails silently where none still does).
#[verifier::external_body]
fn raise(signal: &tokio::sync::watch::Sender<bool>) {
    let _ = signal.send(true);
}

/// `*Receiver::borrow()`: whether the stop signal has been raised. The value
/// depends on when the sender raised it, so nothing is promised of it.
#[verifier::external_body]
pub(crate) fn stop_requested(signal: &tokio::sync::watch::Receiver<bool>) -> (r: bool) {
    *signal.borrow()
}

/// Current status of a pipeline.
#[derive(Debug)]
pub enum PipelineStatus {
    Starting,
    Running,
    Paused,
    Stopped,
    Failed(String),
}

/// The mathematical value of a status.
pub enum StatusView {
    Starting,
    Running,
    Paused,
    Stopped,
    Failed(Seq<char>),
}

impl View for PipelineStatus {
    type V = StatusView;

    open spec fn view(&self) -> StatusView {
        match self {
            PipelineStatus::Starting => StatusView::Starting,
            PipelineStatus::Running => StatusView::Running,
            PipelineStatus::Paused => StatusView::Paused,
            PipelineStatus::Stopped => StatusView::Stopped,
            PipelineStatus::Failed(m) => StatusView::Failed(m@),
        }
    }
}

impl PipelineStatus {
    /// A copy of this status.
    pub fn copy(&self) -> (r: PipelineStatus)
        ensures
            r@ == self@,
    {
        match self {
            PipelineStatus::Starting => PipelineStatus::Starting,
            PipelineStatus::Running => PipelineStatus::Running,
            PipelineStatus::Paused => PipelineStatus::Paused,
            PipelineStatus::Stopped => PipelineStatus::Stopped,
            PipelineStatus::Failed(m) => PipelineStatus::Failed(copy_string(m)),
        }
    }
}

/// The status a pipeline ends with after its run: stopped where the run ended
/// well, failed with the error's text otherwise.
pub fn status_after(outcome: &Result<(), PipelineError>) -> (r: PipelineStatus)
    ensures
        outcome is Ok ==> r@ == StatusView::Stopped,
        outcome matches Err(e) ==> (r matches PipelineStatus::Failed(m) && (error_text(*e) matches Some(
            t,
        ) ==> m@ == t)),
{
    match outcome {
        Ok(()) => PipelineStatus::Stopped,
        Err(e) => PipelineStatus::Failed(e.describe()),
    }
}

/// The moves of a pipeline's status that its run makes: from starting to
/// running when the worker starts, and from running to stopped or failed
/// when its run ends.
pub open spec fn status_step(from: StatusView, to: StatusView) -> bool {
    match from {
        StatusView::Starting => to is Running,
        StatusView::Running => to is Stopped || to is Failed,
        _ => false,
    }
}

/// See `status_step`.
pub fn status_step_exec(from: &PipelineStatus, to: &PipelineStatus) -> (r: bool)
    ensures
        r == status_step(from@, to@),
{
    match from {
        PipelineStatus::Starting => matches!(to, PipelineStatus::Running),
        PipelineStatus::Running => matches!(to, PipelineStatus::Stopped) || matches!(to, PipelineStatus::Failed(_)),
        _ => false,
    }
}

/// Tracks the runtime state of a spawned pipeline.
pub struct PipelineHandle {
    pub config: PipelineConfig,
    pub status: PipelineStatus,
    pub cancel_token: tokio::sync::watch::Sender<bool>,
    /// Whether the stop signal has been raised through the engine.
    pub stop_raised: bool,
}

/// The (id, stop raised) pairs of a list of handles, in order.
pub open spec fn signals_of(hs: Seq<PipelineHandle>) -> Seq<(Seq<char>, bool)> {
    hs.map_values(|h: PipelineHandle| (h.config.pipeline_id@, h.stop_raised))
}

/// Whether the stop signal of a pipeline with id `id` has been raised.
pub open spec fn raised_in(s: Seq<(Seq<char>, bool)>, id: Seq<char>) -> bool {
    exists|i: int| 0 <= i < s.len() && (#[trigger] s[i]).0 == id && s[i].1
}

/// The (id, status) entries of a list of handles, in order.
pub open spec fn entries_of(hs: Seq<PipelineHandle>) -> Seq<(Seq<char>, StatusView)> {
    hs.map_values(|h: PipelineHandle| (h.config.pipeline_id@, h.status@))
}

/// Whether no id occurs twice.
pub open spec fn unique_ids(e: Seq<(Seq<char>, StatusView)>) -> bool {
    forall|i: int, j: int| 0 <= i < j < e.len() ==> e[i].0 != e[j].0
}

/// The status registered for `id`, if any.
pub open spec fn status_of(e: Seq<(Seq<char>, StatusView)>, id: Seq<char>) -> Option<StatusView> {
    if exists|i: int| 0 <= i < e.len() && (#[trigger] e[i]).0 == id {
        Some(e[choose|i: int| 0 <= i < e.len() && (#[trigger] e[i]).0 == id].1)
    } else {
        None
    }
}

pub proof fn lemma_status_of_at(e: Seq<(Seq<char>, StatusView)>, i: int)
    requires
        unique_ids(e),
        0 <= i < e.len(),
    ensures
        status_of(e, e[i].0) == Some(e[i].1),
{
    let id = e[i].0;
    let k = choose|k: int| 0 <= k < e.len() && (#[trigger] e[k]).0 == id;
    if k != i {
        if k < i {
            assert(e[k].0 != e[i].0);
        } else {
            assert(e[i].0 != e[k].0);
        }
    }
}

/// The registry of pipelines, keyed by pipeline id.
pub struct Engine {
    pipelines: Vec<PipelineHandle>,
}

impl Engine {
    #[verifier::type_invariant]
    spec fn inv(&self) -> bool {
        unique_ids(entries_of(self.pipelines@))
    }

    /// The registered pipelines with their statuses, in registration order.
    pub closed spec fn entries(&self) -> Seq<(Seq<char>, StatusView)> {
        entries_of(self.pipelines@)
    }

    /// The registered pipelines with whether their stop signal has been
    /// raised, in registration order.
    pub closed spec fn signals(&self) -> Seq<(Seq<char>, bool)> {
        signals_of(self.pipelines@)
    }

    /// An engine without pipelines.
    pub fn new() -> (r: Engine)
        ensures
            r.entries().len() == 0,
    {
        Engine { pipelines: Vec::new() }
    }

    fn position(&self, id: &str) -> (r: Option<usize>)
        ensures
            match r {
                Some(i) => i < self.entries().len() && self.entries()[i as int].0 == id@,
                None => forall|i: int|
                    0 <= i < self.entries().len() ==> (#[trigger] self.entries()[i]).0 != id@,
            },
    {
        let mut i: usize = 0;
        while i < self.pipelines.len()
            invariant
                i <= self.pipelines@.len(),
                forall|j: int| 0 <= j < i ==> (#[trigger] self.entries()[j]).0 != id@,
            decreases self.pipelines.len() - i,
        {
            if str_eq(self.pipelines[i].config.pipeline_id.as_str(), id) {
                return Some(i);
            }
            i = i + 1;
        }
        None
    }

    /// Registers the pipeline of `config` as starting, replacing any
    /// pipeline with the same id, and gives the receiving half of its stop
    /// signal.
    pub fn spawn_pipeline(&mut self, config: PipelineConfig) -> (r: tokio::sync::watch::Receiver<bool>)
        ensures
            status_of(final(self).entries(), config.pipeline_id@) == Some(StatusView::Starting),
            forall|id: Seq<char>|
                id != config.pipeline_id@ ==> #[trigger] status_of(final(self).entries(), id)
                    == status_of(old(self).entries(), id),
            status_of(old(self).entries(), config.pipeline_id@) is Some ==> final(self).entries().len()
                == old(self).entries().len(),
            status_of(old(self).entries(), config.pipeline_id@) is None ==> final(self).entries()
                == old(self).entries().push((config.pipeline_id@, StatusView::Starting)),
            !raised_in(final(self).signals(), config.pipeline_id@),
            forall|id: Seq<char>|
                id != config.pipeline_id@ ==> #[trigger] raised_in(final(self).signals(), id)
                    == raised_in(old(self).signals(), id),
    {
        proof {
            use_type_invariant(&*self);
        }
        let ghost id = config.pipeline_id@;
        let ghost before = self.entries();
        let (tx, rx) = stop_signal();
        let pos = self.position(config.pipeline_id.as_str());
        let ghost sb = self.signals();
        let handle = PipelineHandle {
            config,
            status: PipelineStatus::Starting,
            cancel_token: tx,
            stop_raised: false,
        };
        match pos {
            Some(i) => {
                let mut ps: Vec<PipelineHandle> = Vec::new();
                std::mem::swap(&mut ps, &mut self.pipelines);
                ps.set(i, handle);
                let ghost after = entries_of(ps@);
                assert(after =~= before.update(i as int, (id, StatusView::Starting)));
                proof {
                    lemma_status_of_update(before, i as int, id, StatusView::Starting);
                    assert(signals_of(ps@) =~= sb.update(i as int, (id, false)));
                    lemma_raised_update(sb, entries_of(ps@), i as int, id, false);
                }
                self.pipelines = ps;
            },
            None => {
                let mut ps: Vec<PipelineHandle> = Vec::new();
                std::mem::swap(&mut ps, &mut self.pipelines);
                ps.push(handle);
                let ghost after = entries_of(ps@);
                assert(after =~= before.push((id, StatusView::Starting)));
                proof {
                    lemma_status_of_push(before, id, StatusView::Starting);
                    assert(signals_of(ps@) =~= sb.push((id, false)));
                    assert forall|k: int| 0 <= k < sb.len() implies (#[trigger] sb[k]).0 != id by {
                        assert(sb[k].0 == before[k].0);
                    }
                    lemma_raised_push(sb, entries_of(ps@), id);
                }
                self.pipelines = ps;
            },
        }
        rx
    }

    /// Moves pipeline `id` to `status`, where it is registered and the move
    /// is one a run makes (see `status_step`); any other call changes
    /// nothing. Whether the move was made is returned.
    pub fn set_status(&mut self, id: &str, status: PipelineStatus) -> (r: bool)
        ensures
            r <==> (status_of(old(self).entries(), id@) matches Some(s) && status_step(s, status@)),
            r ==> status_of(final(self).entries(), id@) == Some(status@),
            !r ==> final(self).entries() == old(self).entries(),
            forall|other: Seq<char>|
                other != id@ ==> #[trigger] status_of(final(self).entries(), other) == status_of(
                    old(self).entries(),
                    other,
                ),
            final(self).entries().len() == old(self).entries().len(),
            final(self).signals() == old(self).signals(),
    {
        proof {
            use_type_invariant(&*self);
        }
        let ghost before = self.entries();
        let ghost sb = self.signals();
        match self.position(id) {
            Some(i) => {
                proof {
                    lemma_status_of_at(self.entries(), i as int);
                }
                if !status_step_exec(&self.pipelines[i].status, &status) {
                    proof {
                        assert forall|other: Seq<char>| other != id@ implies #[trigger] status_of(
                            self.entries(),
                            other,
                        ) == status_of(before, other) by {}
                    }
                    return false;
                }
                let ghost sv = status@;
                let mut ps: Vec<PipelineHandle> = Vec::new();
                std::mem::swap(&mut ps, &mut self.pipelines);
                let mut h = ps.remove(i);
                h.status = status;
                ps.insert(i, h);
                assert(entries_of(ps@) =~= before.update(i as int, (id@, sv)));
                assert(signals_of(ps@) =~= sb);
                proof {
                    lemma_status_of_update(before, i as int, id@, sv);
                }
                self.pipelines = ps;
                true
            },
            None => {
                proof {
                    assert forall|other: Seq<char>| other != id@ implies #[trigger] status_of(
                        self.entries(),
                        other,
                    ) == status_of(before, other) by {}
                }
                false
            },
        }
    }

    /// All pipelines with their statuses, in registration order.
    pub fn list_pipelines(&self) -> (r: Vec<(String, PipelineStatus)>)
        ensures
            r@.len() == self.entries().len(),
            forall|i: int|
                0 <= i < r@.len() ==> (#[trigger] r@[i]).0@ == self.entries()[i].0 && r@[i].1@
                    == self.entries()[i].1,
            forall|i: int, j: int| 0 <= i < j < r@.len() ==> r@[i].0@ != r@[j].0@,
    {
        proof {
            use_type_invariant(self);
        }
        let mut r: Vec<(String, PipelineStatus)> = Vec::new();
        let mut i: usize = 0;
        while i < self.pipelines.len()
            invariant
                i <= self.pipelines@.len(),
                r@.len() == i,
                forall|j: int|
                    0 <= j < i ==> (#[trigger] r@[j]).0@ == self.entries()[j].0 && r@[j].1@
                        == self.entries()[j].1,
            decreases self.pipelines.len() - i,
        {
            let h = &self.pipelines[i];
            r.push((copy_string(&h.config.pipeline_id), h.status.copy()));
            i = i + 1;
        }
        r
    }

    /// Raises the stop signal of pipeline `pipeline_id`, so that its worker
    /// flushes and shuts down at the top of its loop; a configuration error
    /// where no such pipeline is registered. The pipeline stays registered
    /// with its status.
    pub fn stop_pipeline(&mut self, pipeline_id: &str) -> (r: Result<(), PipelineError>)
        ensures
            status_of(old(self).entries(), pipeline_id@) is Some ==> (r is Ok && raised_in(
                final(self).signals(),
                pipeline_id@,
            )),
            status_of(old(self).entries(), pipeline_id@) is None ==> (r matches Err(e)
                && is_config_error(e, "Pipeline '"@ + pipeline_id@ + "' not found"@)
                && final(self).signals() == old(self).signals()),
            forall|id: Seq<char>|
                id != pipeline_id@ ==> #[trigger] raised_in(final(self).signals(), id) == raised_in(
                    old(self).signals(),
                    id,
                ),
            final(self).entries() == old(self).entries(),
    {
        proof {
            use_type_invariant(&*self);
        }
        let ghost before = self.entries();
        let ghost sb = self.signals();
        match self.position(pipeline_id) {
            Some(i) => {
                proof {
                    lemma_status_of_at(self.entries(), i as int);
                }
                let mut ps: Vec<PipelineHandle> = Vec::new();
                std::mem::swap(&mut ps, &mut self.pipelines);
                let mut h = ps.remove(i);
                raise(&h.cancel_token);
                h.stop_raised = true;
                ps.insert(i, h);
                assert(entries_of(ps@) =~= before);
                assert(signals_of(ps@) =~= sb.update(i as int, (pipeline_id@, true)));
                proof {
                    lemma_raised_update(sb, before, i as int, pipeline_id@, true);
                }
                self.pipelines = ps;
                Ok(())
            },
            None => {
                let mut m = chars_of("Pipeline '");
                push_str(&mut m, pipeline_id);
                push_str(&mut m, "' not found");
                Err(PipelineError::ConfigError { message: string_from_chars(&m) })
            },
        }
    }
}

/// Setting entry `i` (id `id`) of the signals leaves every other id's signal
/// as it was, where ids are unique.
pub proof fn lemma_raised_update(
    s: Seq<(Seq<char>, bool)>,
    e: Seq<(Seq<char>, StatusView)>,
    i: int,
    id: Seq<char>,
    b: bool,
)
    requires
        0 <= i < s.len(),
        s.len() == e.len(),
        forall|k: int| 0 <= k < s.len() ==> (#[trigger] s[k]).0 == e[k].0,
        s[i].0 == id,
        unique_ids(e),
    ensures
        raised_in(s.update(i, (id, b)), id) == b,
        forall|other: Seq<char>|
            other != id ==> #[trigger] raised_in(s.update(i, (id, b)), other) == raised_in(s, other),
{
    let u = s.update(i, (id, b));
    if b {
        assert(u[i].0 == id && u[i].1);
    } else {
        assert forall|k: int| 0 <= k < u.len() && (#[trigger] u[k]).0 == id implies !u[k].1 by {
            if k != i {
                assert(u[k] == s[k]);
                if k < i {
                    assert(e[k].0 != e[i].0);
                } else {
                    assert(e[i].0 != e[k].0);
                }
            }
        }
    }
    assert forall|other: Seq<char>| other != id implies #[trigger] raised_in(u, other) == raised_in(
        s,
        other,
    ) by {
        if raised_in(s, other) {
            let k = choose|k: int| 0 <= k < s.len() && (#[trigger] s[k]).0 == other && s[k].1;
            assert(k != i);
            assert(u[k] == s[k]);
        }
        if raised_in(u, other) {
            let k = choose|k: int| 0 <= k < u.len() && (#[trigger] u[k]).0 == other && u[k].1;
            assert(k != i);
            assert(u[k] == s[k]);
        }
    }
}

/// A new entry whose signal is not raised leaves every other id's signal as
/// it was, and its own not raised, where its id is new.
pub proof fn lemma_raised_push(s: Seq<(Seq<char>, bool)>, e: Seq<(Seq<char>, StatusView)>, id: Seq<char>)
    requires
        forall|k: int| 0 <= k < s.len() ==> (#[trigger] s[k]).0 != id,
    ensures
        !raised_in(s.push((id, false)), id),
        forall|other: Seq<char>|
            other != id ==> #[trigger] raised_in(s.push((id, false)), other) == raised_in(s, other),
{
    let u = s.push((id, false));
    assert forall|k: int| 0 <= k < u.len() && (#[trigger] u[k]).0 == id implies !u[k].1 by {
        if k < s.len() {
            assert(u[k] == s[k]);
        }
    }
    assert forall|other: Seq<char>| other != id implies #[trigger] raised_in(u, other) == raised_in(
        s,
        other,
    ) by {
        if raised_in(s, other) {
            let k = choose|k: int| 0 <= k < s.len() && (#[trigger] s[k]).0 == other && s[k].1;
            assert(u[k] == s[k]);
        }
        if raised_in(u, other) {
            let k = choose|k: int| 0 <= k < u.len() && (#[trigger] u[k]).0 == other && u[k].1;
            if k < s.len() {
                assert(u[k] == s[k]);
            }
        }
    }
}

impl Default for Engine {
    fn default() -> (r: Self)
        ensures
            r.entries().len() == 0,
    {
        Engine::new()
    }
}

pub proof fn lemma_status_of_update(
    e: Seq<(Seq<char>, StatusView)>,
    i: int,
    id: Seq<char>,
    s: StatusView,
)
    requires
        unique_ids(e),
        0 <= i < e.len(),
        e[i].0 == id,
    ensures
        unique_ids(e.update(i, (id, s))),
        status_of(e.update(i, (id, s)), id) == Some(s),
        forall|other: Seq<char>|
            other != id ==> #[trigger] status_of(e.update(i, (id, s)), other) == status_of(e, other),
{
    let u = e.update(i, (id, s));
    assert(unique_ids(u)) by {
        assert forall|a: int, b: int| 0 <= a < b < u.len() implies u[a].0 != u[b].0 by {
            assert(e[a].0 != e[b].0);
        }
    }
    lemma_status_of_at(u, i);
    assert forall|other: Seq<char>| other != id implies #[trigger] status_of(u, other) == status_of(
        e,
        other,
    ) by {
        if exists|k: int| 0 <= k < e.len() && (#[trigger] e[k]).0 == other {
            let k = choose|k: int| 0 <= k < e.len() && (#[trigger] e[k]).0 == other;
            assert(k != i);
            assert(u[k] == e[k]);
            lemma_status_of_at(e, k);
            lemma_status_of_at(u, k);
        } else {
            assert forall|k: int| 0 <= k < u.len() implies (#[trigger] u[k]).0 != other by {
                if k != i {
                    assert(u[k] == e[k]);
                }
            }
        }
    }
}

pub proof fn lemma_status_of_push(e: Seq<(Seq<char>, StatusView)>, id: Seq<char>, s: StatusView)
    requires
        unique_ids(e),
        forall|k: int| 0 <= k < e.len() ==> (#[trigger] e[k]).0 != id,
    ensures
        unique_ids(e.push((id, s))),
        status_of(e.push((id, s)), id) == Some(s),
        forall|other: Seq<char>|
            other != id ==> #[trigger] status_of(e.push((id, s)), other) == status_of(e, other),
{
    let u = e.push((id, s));
    assert(unique_ids(u)) by {
        assert forall|a: int, b: int| 0 <= a < b < u.len() implies u[a].0 != u[b].0 by {
            if b < e.len() {
                assert(e[a].0 != e[b].0);
            } else {
                assert(u[a] == e[a]);
            }
        }
    }
    lemma_status_of_at(u, e.len() as int);
    assert forall|other: Seq<char>| other != id implies #[trigger] status_of(u, other) == status_of(
        e,
        other,
    ) by {
        if exists|k: int| 0 <= k < e.len() && (#[trigger] e[k]).0 == other {
            let k = choose|k: int| 0 <= k < e.len() && (#[trigger] e[k]).0 == other;
            assert(u[k] == e[k]);
            lemma_status_of_at(e, k);
            lemma_status_of_at(u, k);
        } else {
            assert forall|k: int| 0 <= k < u.len() implies (#[trigger] u[k]).0 != other by {
                if k < e.len() {
                    assert(u[k] == e[k]);
                }
            }
        }
    }
}

} // verus!
