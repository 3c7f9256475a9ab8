//! Training runs: the stages of a run, their outcomes, and the decisions
//! that drive a run from one stage to the next.  The settings of a run and
//! the metrics a stage reports are of the caller's types `C` and `M`; the
//! caller executes each stage and reports how it went.
use vstd::prelude::*;
use crate::clock;
use crate::ids;
use crate::text::owned;

verus! {

/// The stages of a training run, in the order they run.
#[derive(PartialEq, Eq, Structural, Clone, Copy, Debug)]
pub enum PipelineStage {
    DataCollection,
    DataPreprocessing,
    FeatureEngineering,
    Training,
    Validation,
    Testing,
    Deployment,
}

#[derive(PartialEq, Eq, Structural, Clone, Copy, Debug)]
pub enum PipelineStatus {
    Pending,
    Running,
    Completed,
    Failed,
    Cancelled,
}

/// The stages of a run, in the order they run.
pub open spec fn stage_order() -> Seq<PipelineStage> {
    seq![
        PipelineStage::DataCollection,
        PipelineStage::DataPreprocessing,
        PipelineStage::FeatureEngineering,
        PipelineStage::Training,
        PipelineStage::Validation,
        PipelineStage::Testing,
        PipelineStage::Deployment,
    ]
}

/// The outcome of one stage of a run.  Times are in seconds since the Unix
/// epoch; the metrics are those the stage reported when it completed.
#[derive(Clone, Debug)]
pub struct StageResult<M> {
    pub stage: PipelineStage,
    pub status: PipelineStatus,
    pub started_at: Option<i64>,
    pub completed_at: Option<i64>,
    pub error: Option<String>,
    pub metrics: Option<M>,
}

/// A stage that has not started.
pub open spec fn pending_stage<M>(stage: PipelineStage) -> StageResult<M> {
    StageResult {
        stage,
        status: PipelineStatus::Pending,
        started_at: None,
        completed_at: None,
        error: None,
        metrics: None,
    }
}

/// The stage once it started at `now`.
pub open spec fn started<M>(s: StageResult<M>, now: i64) -> StageResult<M> {
    StageResult {
        stage: s.stage,
        status: PipelineStatus::Running,
        started_at: Some(now),
        completed_at: s.completed_at,
        error: s.error,
        metrics: s.metrics,
    }
}

/// The stage once it completed at `now`.
pub open spec fn completed<M>(s: StageResult<M>, now: i64) -> StageResult<M> {
    StageResult {
        stage: s.stage,
        status: PipelineStatus::Completed,
        started_at: s.started_at,
        completed_at: Some(now),
        error: s.error,
        metrics: s.metrics,
    }
}

/// The stage once it failed at `now` for `error`.
pub open spec fn failed<M>(s: StageResult<M>, error: String, now: i64) -> StageResult<M> {
    StageResult {
        stage: s.stage,
        status: PipelineStatus::Failed,
        started_at: s.started_at,
        completed_at: Some(now),
        error: Some(error),
        metrics: s.metrics,
    }
}

/// The stage with the metrics it reported.
pub open spec fn with_metrics<M>(s: StageResult<M>, m: M) -> StageResult<M> {
    StageResult {
        stage: s.stage,
        status: s.status,
        started_at: s.started_at,
        completed_at: s.completed_at,
        error: s.error,
        metrics: Some(m),
    }
}

impl<M> StageResult<M> {
    /// A stage that has not started: pending, with no times, error or
    /// metrics.
    pub fn new(stage: PipelineStage) -> (r: StageResult<M>)
        ensures
            r == pending_stage::<M>(stage),
    {
        StageResult {
            stage,
            status: PipelineStatus::Pending,
            started_at: None,
            completed_at: None,
            error: None,
            metrics: None,
        }
    }

    /// Starts the stage at `now`.
    pub fn start_at(&mut self, now: i64)
        ensures
            *final(self) == started(*old(self), now),
    {
        self.status = PipelineStatus::Running;
        self.started_at = Some(now);
    }

    /// Starts the stage now.
    pub fn start(&mut self)
        ensures
            final(self).started_at matches Some(t) && *final(self) == started(*old(self), t),
    {
        self.start_at(clock::now());
    }

    /// Completes the stage at `now`.
    pub fn complete_at(&mut self, now: i64)
        ensures
            *final(self) == completed(*old(self), now),
    {
        self.status = PipelineStatus::Completed;
        self.completed_at = Some(now);
    }

    /// Completes the stage now.
    pub fn complete(&mut self)
        ensures
            final(self).completed_at matches Some(t) && *final(self) == completed(*old(self), t),
    {
        self.complete_at(clock::now());
    }

    /// Fails the stage at `now` for `error`.
    pub fn fail_at(&mut self, error: String, now: i64)
        ensures
            *final(self) == failed(*old(self), error, now),
    {
        self.status = PipelineStatus::Failed;
        self.completed_at = Some(now);
        self.error = Some(error);
    }

    /// Fails the stage now for `error`.
    pub fn fail(&mut self, error: String)
        ensures
            final(self).completed_at matches Some(t) && *final(self) == failed(*old(self), error, t),
    {
        self.fail_at(error, clock::now());
    }
}

/// One run of the pipeline: its settings, its status, and the outcome of
/// each stage.  Times are in seconds since the Unix epoch.
#[derive(Clone, Debug)]
pub struct PipelineRun<C, M> {
    pub id: u128,
    pub config: C,
    pub status: PipelineStatus,
    pub stages: Vec<StageResult<M>>,
    pub started_at: i64,
    pub completed_at: Option<i64>,
    pub created_by: String,
}

/// The stages of a new run: every stage, in order, pending.
pub open spec fn fresh_stages<M>() -> Seq<StageResult<M>> {
    stage_order().map_values(|s: PipelineStage| pending_stage::<M>(s))
}

/// The position of the first stage of that kind.
pub open spec fn stage_pos<M>(ss: Seq<StageResult<M>>, stage: PipelineStage) -> Option<int>
    decreases ss.len(),
{
    if ss.len() == 0 {
        None
    } else if ss[0].stage == stage {
        Some(0)
    } else {
        match stage_pos(ss.drop_first(), stage) {
            Some(k) => Some(k + 1),
            None => None,
        }
    }
}

/// The position of the first running stage.
pub open spec fn running_pos<M>(ss: Seq<StageResult<M>>) -> Option<int>
    decreases ss.len(),
{
    if ss.len() == 0 {
        None
    } else if ss[0].status == PipelineStatus::Running {
        Some(0)
    } else {
        match running_pos(ss.drop_first()) {
            Some(k) => Some(k + 1),
            None => None,
        }
    }
}

proof fn lemma_stage_pos<M>(ss: Seq<StageResult<M>>, stage: PipelineStage)
    ensures
        match stage_pos(ss, stage) {
            Some(k) => 0 <= k < ss.len() && ss[k].stage == stage && forall|j: int|
                0 <= j < k ==> (#[trigger] ss[j]).stage != stage,
            None => forall|j: int| 0 <= j < ss.len() ==> (#[trigger] ss[j]).stage != stage,
        },
    decreases ss.len(),
{
    if ss.len() > 0 && ss[0].stage != stage {
        lemma_stage_pos(ss.drop_first(), stage);
        assert forall|j: int| 0 < j < ss.len() implies ss[j] == ss.drop_first()[j - 1] by {}
    }
}

proof fn lemma_running_pos<M>(ss: Seq<StageResult<M>>)
    ensures
        match running_pos(ss) {
            Some(k) => 0 <= k < ss.len() && ss[k].status == PipelineStatus::Running && forall|j: int|
                0 <= j < k ==> (#[trigger] ss[j]).status != PipelineStatus::Running,
            None => forall|j: int| 0 <= j < ss.len() ==> (#[trigger] ss[j]).status != PipelineStatus::Running,
        },
    decreases ss.len(),
{
    if ss.len() > 0 && ss[0].status != PipelineStatus::Running {
        lemma_running_pos(ss.drop_first());
        assert forall|j: int| 0 < j < ss.len() implies ss[j] == ss.drop_first()[j - 1] by {}
    }
}

/// The first position at or after `i` that satisfies the first-stage
/// property is the first one overall, when no earlier one does.
proof fn lemma_stage_pos_is_first<M>(ss: Seq<StageResult<M>>, stage: PipelineStage, k: int)
    requires
        0 <= k < ss.len(),
        ss[k].stage == stage,
        forall|j: int| 0 <= j < k ==> (#[trigger] ss[j]).stage != stage,
    ensures
        stage_pos(ss, stage) == Some(k),
{
    lemma_stage_pos(ss, stage);
}

proof fn lemma_running_pos_is_first<M>(ss: Seq<StageResult<M>>, k: int)
    requires
        0 <= k < ss.len(),
        ss[k].status == PipelineStatus::Running,
        forall|j: int| 0 <= j < k ==> (#[trigger] ss[j]).status != PipelineStatus::Running,
    ensures
        running_pos(ss) == Some(k),
{
    lemma_running_pos(ss);
}

fn first_stage_of<M>(ss: &Vec<StageResult<M>>, stage: PipelineStage) -> (r: Option<usize>)
    ensures
        match r {
            Some(k) => stage_pos(ss@, stage) == Some(k as int),
            None => stage_pos(ss@, stage) is None,
        },
{
    proof {
        lemma_stage_pos(ss@, stage);
    }
    let mut i: usize = 0;
    while i < ss.len()
        invariant
            0 <= i <= ss@.len(),
            forall|j: int| 0 <= j < i ==> (#[trigger] ss@[j]).stage != stage,
        decreases ss.len() - i,
    {
        if ss[i].stage == stage {
            proof {
                lemma_stage_pos_is_first(ss@, stage, i as int);
            }
            return Some(i);
        }
        i = i + 1;
    }
    None
}

fn first_running<M>(ss: &Vec<StageResult<M>>) -> (r: Option<usize>)
    ensures
        match r {
            Some(k) => running_pos(ss@) == Some(k as int),
            None => running_pos(ss@) is None,
        },
{
    proof {
        lemma_running_pos(ss@);
    }
    let mut i: usize = 0;
    while i < ss.len()
        invariant
            0 <= i <= ss@.len(),
            forall|j: int| 0 <= j < i ==> (#[trigger] ss@[j]).status != PipelineStatus::Running,
        decreases ss.len() - i,
    {
        if ss[i].status == PipelineStatus::Running {
            proof {
                lemma_running_pos_is_first(ss@, i as int);
            }
            return Some(i);
        }
        i = i + 1;
    }
    None
}

/// The fields of a run other than its status, stages and end stay those of
/// another.
pub open spec fn same_identity<C, M>(a: PipelineRun<C, M>, b: PipelineRun<C, M>) -> bool {
    &&& a.id == b.id
    &&& a.config == b.config
    &&& a.started_at == b.started_at
    &&& a.created_by == b.created_by
}

impl<C, M> PipelineRun<C, M> {
    /// A run with that id, started at `now`: every stage pending, in order.
    pub fn new_at(config: C, created_by: &str, id: u128, now: i64) -> (r: PipelineRun<C, M>)
        ensures
            r.id == id,
            r.config == config,
            r.status == PipelineStatus::Pending,
            r.stages@ == fresh_stages::<M>(),
            r.started_at == now,
            r.completed_at is None,
            r.created_by@ == created_by@,
    {
        let mut stages: Vec<StageResult<M>> = Vec::new();
        stages.push(StageResult::new(PipelineStage::DataCollection));
        stages.push(StageResult::new(PipelineStage::DataPreprocessing));
        stages.push(StageResult::new(PipelineStage::FeatureEngineering));
        stages.push(StageResult::new(PipelineStage::Training));
        stages.push(StageResult::new(PipelineStage::Validation));
        stages.push(StageResult::new(PipelineStage::Testing));
        stages.push(StageResult::new(PipelineStage::Deployment));
        proof {
            assert(stages@ =~= fresh_stages::<M>());
        }
        PipelineRun {
            id,
            config,
            status: PipelineStatus::Pending,
            stages,
            started_at: now,
            completed_at: None,
            created_by: owned(created_by),
        }
    }

    /// A run with a fresh id, started now.
    pub fn new(config: C, created_by: &str) -> (r: PipelineRun<C, M>)
        ensures
            r.config == config,
            r.status == PipelineStatus::Pending,
            r.stages@ == fresh_stages::<M>(),
            r.completed_at is None,
            r.created_by@ == created_by@,
    {
        let id = ids::new_v4();
        let now = clock::now();
        PipelineRun::new_at(config, created_by, id, now)
    }

    /// The first stage of that kind, to be changed in place.
    pub fn get_stage_mut(&mut self, stage: &PipelineStage) -> (r: Option<&mut StageResult<M>>)
        ensures
            match stage_pos(old(self).stages@, *stage) {
                Some(k) => r matches Some(e) && *e == old(self).stages@[k]
                    && final(self).stages@ == old(self).stages@.update(k, *final(e))
                    && same_identity(*final(self), *old(self))
                    && final(self).status == old(self).status
                    && final(self).completed_at == old(self).completed_at,
                None => r is None && *final(self) == *old(self),
            },
    {
        proof {
            lemma_stage_pos(self.stages@, *stage);
        }
        match first_stage_of(&self.stages, *stage) {
            Some(k) => Some(&mut self.stages[k]),
            None => None,
        }
    }

    /// The first running stage.
    pub fn get_current_stage(&self) -> (r: Option<&StageResult<M>>)
        ensures
            match running_pos(self.stages@) {
                Some(k) => r == Some(&self.stages@[k]),
                None => r is None,
            },
    {
        proof {
            lemma_running_pos(self.stages@);
        }
        match first_running(&self.stages) {
            Some(k) => Some(&self.stages[k]),
            None => None,
        }
    }

    /// Whether the run has completed or failed.
    pub fn is_complete(&self) -> (b: bool)
        ensures
            b == (self.status == PipelineStatus::Completed || self.status == PipelineStatus::Failed),
    {
        self.status == PipelineStatus::Completed || self.status == PipelineStatus::Failed
    }
}

/// What driving a run asks of the caller next: to execute the stage at a
/// position, nothing more as the run completed, or nothing more as it
/// failed, for the reason given.
#[derive(Clone, Debug)]
pub enum RunAction {
    Execute(usize),
    Done,
    Failed(String),
}

/// Why a request about a run was refused.
#[derive(PartialEq, Eq, Structural, Clone, Copy, Debug)]
pub enum PipelineError {
    RunNotFound,
    /// A completed or failed run cannot be cancelled.
    AlreadyComplete,
    /// Stage outcomes are recorded only while the run is running.
    NotRunning,
    /// No stage of the run is running.
    NoStageRunning,
}

impl PipelineError {
    /// The message of the error.
    pub fn message(&self) -> (s: String)
        ensures
            s@ == (match self {
                PipelineError::RunNotFound => "Run not found"@,
                PipelineError::AlreadyComplete => "Cannot cancel completed run"@,
                PipelineError::NotRunning => "Run is not running"@,
                PipelineError::NoStageRunning => "No stage is running"@,
            }),
    {
        match self {
            PipelineError::RunNotFound => owned("Run not found"),
            PipelineError::AlreadyComplete => owned("Cannot cancel completed run"),
            PipelineError::NotRunning => owned("Run is not running"),
            PipelineError::NoStageRunning => owned("No stage is running"),
        }
    }
}

/// The position of the run with that id: the last one with it.
pub open spec fn run_pos<C, M>(rs: Seq<PipelineRun<C, M>>, id: u128) -> Option<int>
    decreases rs.len(),
{
    if rs.len() == 0 {
        None
    } else if rs.last().id == id {
        Some(rs.len() - 1)
    } else {
        run_pos(rs.drop_last(), id)
    }
}

/// The runs with that status, in order.
pub open spec fn runs_with_status<C, M>(rs: Seq<PipelineRun<C, M>>, status: PipelineStatus) -> Seq<PipelineRun<C, M>>
    decreases rs.len(),
{
    if rs.len() == 0 {
        Seq::empty()
    } else if rs.last().status == status {
        runs_with_status(rs.drop_last(), status).push(rs.last())
    } else {
        runs_with_status(rs.drop_last(), status)
    }
}

proof fn lemma_run_pos<C, M>(rs: Seq<PipelineRun<C, M>>, id: u128)
    ensures
        match run_pos(rs, id) {
            Some(k) => 0 <= k < rs.len() && rs[k].id == id,
            None => forall|j: int| 0 <= j < rs.len() ==> (#[trigger] rs[j]).id != id,
        },
    decreases rs.len(),
{
    if rs.len() > 0 && rs.last().id != id {
        lemma_run_pos(rs.drop_last(), id);
        assert forall|j: int| 0 <= j < rs.len() - 1 implies rs[j] == rs.drop_last()[j] by {}
    }
}

/// Replacing the run at the position of `id` by one with the same id keeps
/// where every id is found.
proof fn lemma_run_pos_update<C, M>(rs: Seq<PipelineRun<C, M>>, id: u128, k: int, r: PipelineRun<C, M>, other: u128)
    requires
        run_pos(rs, id) == Some(k),
        r.id == id,
    ensures
        run_pos(rs.update(k, r), other) == run_pos(rs, other),
    decreases rs.len(),
{
    lemma_run_pos(rs, id);
    let u = rs.update(k, r);
    if k < rs.len() - 1 {
        assert(u.drop_last() =~= rs.drop_last().update(k, r));
        assert(u.last() == rs.last());
        lemma_run_pos_update(rs.drop_last(), id, k, r, other);
    } else {
        assert(u.drop_last() =~= rs.drop_last());
    }
}

/// The runs of the pipeline.  The stages are executed by the caller, which
/// reports each outcome; the pipeline decides what comes next.
pub struct TrainingPipeline<C, M> {
    runs: Vec<PipelineRun<C, M>>,
}

impl<C, M> TrainingPipeline<C, M> {
    pub closed spec fn runs_view(&self) -> Seq<PipelineRun<C, M>> {
        self.runs@
    }

    /// The run with that id, if any.
    pub open spec fn run(&self, id: u128) -> Option<PipelineRun<C, M>> {
        match run_pos(self.runs_view(), id) {
            Some(k) => Some(self.runs_view()[k]),
            None => None,
        }
    }

    /// No runs.
    pub fn new() -> (p: TrainingPipeline<C, M>)
        ensures
            p.runs_view().len() == 0,
    {
        TrainingPipeline { runs: Vec::new() }
    }

    fn find_run(&self, id: u128) -> (r: Option<usize>)
        ensures
            match r {
                Some(k) => run_pos(self.runs@, id) == Some(k as int),
                None => run_pos(self.runs@, id) is None,
            },
    {
        let mut i: usize = self.runs.len();
        proof {
            assert(self.runs@.take(i as int) =~= self.runs@);
        }
        while i > 0
            invariant
                0 <= i <= self.runs@.len(),
                run_pos(self.runs@, id) == run_pos(self.runs@.take(i as int), id),
            decreases i,
        {
            proof {
                assert(self.runs@.take(i as int).drop_last() =~= self.runs@.take(i - 1));
            }
            if self.runs[i - 1].id == id {
                return Some(i - 1);
            }
            i = i - 1;
        }
        None
    }

    /// Puts `run` at position `k`, the position of its id.
    fn replace_run(&mut self, k: usize, run: PipelineRun<C, M>)
        requires
            run_pos(old(self).runs@, run.id) == Some(k as int),
        ensures
            final(self).runs@ == old(self).runs@.update(k as int, run),
            final(self).run(run.id) == Some(run),
            forall|other: u128| other != run.id ==> final(self).run(other) == old(self).run(other),
    {
        proof {
            lemma_run_pos(self.runs@, run.id);
            assert forall|other: u128| #[trigger] run_pos(self.runs@.update(k as int, run), other) == run_pos(self.runs@, other) by {
                lemma_run_pos_update(self.runs@, run.id, k as int, run, other);
            }
        }
        let ghost id = run.id;
        let ghost before = self.runs@;
        self.runs.remove(k);
        self.runs.insert(k, run);
        proof {
            assert(self.runs@ =~= before.update(k as int, run));
            lemma_run_pos_update(before, id, k as int, run, id);
            assert forall|other: u128| other != id implies self.run(other) == old(self).run(other) by {
                lemma_run_pos(before, other);
                lemma_run_pos_update(before, id, k as int, run, other);
            }
        }
    }

    /// Adds the run, or replaces the run of its id.
    fn insert_run(&mut self, run: PipelineRun<C, M>)
        ensures
            final(self).run(run.id) == Some(run),
            forall|other: u128| other != run.id ==> final(self).run(other) == old(self).run(other),
    {
        match self.find_run(run.id) {
            Some(k) => self.replace_run(k, run),
            None => {
                let ghost before = self.runs@;
                let ghost id = run.id;
                self.runs.push(run);
                proof {
                    assert(self.runs@.drop_last() =~= before);
                    assert forall|other: u128| other != id implies self.run(other) == old(self).run(other) by {
                        lemma_run_pos(before, other);
                    }
                }
            },
        }
    }

    /// Creates a pending run with that id, started at `now`, and hands back
    /// its id; a run of that id is replaced.
    pub fn create_run_at(&mut self, config: C, created_by: &str, id: u128, now: i64) -> (r: u128)
        ensures
            r == id,
            final(self).run(id) matches Some(run) && run.id == id && run.config == config && run.status
                == PipelineStatus::Pending && run.stages@ == fresh_stages::<M>() && run.started_at == now
                && run.completed_at is None && run.created_by@ == created_by@,
            forall|other: u128| other != id ==> final(self).run(other) == old(self).run(other),
    {
        let run = PipelineRun::new_at(config, created_by, id, now);
        self.insert_run(run);
        id
    }

    /// Creates a pending run with a fresh id, started now, and hands back
    /// its id.
    pub fn create_run(&mut self, config: C, created_by: &str) -> (r: u128)
        ensures
            final(self).run(r) matches Some(run) && run.id == r && run.config == config && run.status
                == PipelineStatus::Pending && run.stages@ == fresh_stages::<M>() && run.completed_at is None
                && run.created_by@ == created_by@,
            forall|other: u128| other != r ==> final(self).run(other) == old(self).run(other),
    {
        let id = ids::new_v4();
        let now = clock::now();
        self.create_run_at(config, created_by, id, now)
    }

    /// The run with that id.
    pub fn get_run(&self, run_id: &u128) -> (r: Option<&PipelineRun<C, M>>)
        ensures
            match self.run(*run_id) {
                Some(run) => r == Some(&run),
                None => r is None,
            },
    {
        proof {
            lemma_run_pos(self.runs@, *run_id);
        }
        match self.find_run(*run_id) {
            Some(k) => Some(&self.runs[k]),
            None => None,
        }
    }

    /// Starts executing a run at `now`: the run is running and its first
    /// stage starts, to be executed by the caller.  A run without stages
    /// completes at once.
    pub fn start_run(&mut self, run_id: &u128, now: i64) -> (r: Result<RunAction, PipelineError>)
        ensures
            match old(self).run(*run_id) {
                None => r == Err::<RunAction, PipelineError>(PipelineError::RunNotFound) && final(self).runs_view()
                    == old(self).runs_view(),
                Some(run) => final(self).run(*run_id) matches Some(fr) && same_identity(fr, run) && if run.stages@.len()
                    == 0 {
                    r matches Ok(RunAction::Done) && fr.status == PipelineStatus::Completed && fr.completed_at
                        == Some(now) && fr.stages@ == run.stages@
                } else {
                    r matches Ok(RunAction::Execute(0)) && fr.status == PipelineStatus::Running && fr.completed_at
                        == run.completed_at && fr.stages@ == run.stages@.update(0, started(run.stages@[0], now))
                },
            },
            forall|other: u128| other != *run_id ==> final(self).run(other) == old(self).run(other),
    {
        proof {
            lemma_run_pos(self.runs@, *run_id);
        }
        let k = match self.find_run(*run_id) {
            Some(k) => k,
            None => {
                return Err(PipelineError::RunNotFound);
            },
        };
        let mut run = self.runs.remove(k);
        let ghost before = self.runs@.insert(k as int, run);
        let action;
        if run.stages.len() == 0 {
            run.status = PipelineStatus::Completed;
            run.completed_at = Some(now);
            action = RunAction::Done;
        } else {
            run.status = PipelineStatus::Running;
            let mut first = run.stages.remove(0);
            first.start_at(now);
            run.stages.insert(0, first);
            action = RunAction::Execute(0);
        }
        proof {
            assert(before =~= old(self).runs@);
            assert(before.remove(k as int) =~= self.runs@);
        }
        let ghost fr = run;
        self.runs.insert(k, run);
        proof {
            assert(self.runs@ =~= old(self).runs@.update(k as int, fr));
            assert forall|other: u128| #[trigger] run_pos(self.runs@, other) == run_pos(old(self).runs@, other) by {
                lemma_run_pos_update(old(self).runs@, *run_id, k as int, fr, other);
            }
            lemma_run_pos_update(old(self).runs@, *run_id, k as int, fr, *run_id);
            assert forall|other: u128| other != *run_id implies self.run(other) == old(self).run(other) by {
                lemma_run_pos(old(self).runs@, other);
            }
            if old(self).runs@[k as int].stages@.len() > 0 {
                assert(fr.stages@ =~= old(self).runs@[k as int].stages@.update(0, started(old(self).runs@[k as int].stages@[0], now)));
            }
        }
        Ok(action)
    }
}

impl<C, M> TrainingPipeline<C, M> {
    /// Records how the running stage of a run went, at `now`.  On success
    /// the stage keeps its metrics and completes; the next stage starts, to
    /// be executed by the caller, or the run completes after the last one.
    /// On failure the stage and the run fail, and no later stage starts.
    pub fn finish_stage(&mut self, run_id: &u128, outcome: Result<M, String>, now: i64) -> (r: Result<
        RunAction,
        PipelineError,
    >)
        ensures
            match old(self).run(*run_id) {
                None => r == Err::<RunAction, PipelineError>(PipelineError::RunNotFound) && final(self).runs_view()
                    == old(self).runs_view(),
                Some(run) => if run.status != PipelineStatus::Running {
                    r == Err::<RunAction, PipelineError>(PipelineError::NotRunning) && final(self).runs_view()
                        == old(self).runs_view()
                } else {
                    match running_pos(run.stages@) {
                        None => r == Err::<RunAction, PipelineError>(PipelineError::NoStageRunning) && final(self).runs_view() == old(self).runs_view(),
                        Some(k) => final(self).run(*run_id) matches Some(fr) && same_identity(fr, run) && match outcome {
                            Ok(m) => if k + 1 < run.stages@.len() {
                                r matches Ok(RunAction::Execute(n)) && n == k + 1 && fr.status
                                    == PipelineStatus::Running && fr.completed_at == run.completed_at && fr.stages@
                                    == run.stages@.update(k, completed(with_metrics(run.stages@[k], m), now)).update(
                                    k + 1,
                                    started(run.stages@[k + 1], now),
                                )
                            } else {
                                r matches Ok(RunAction::Done) && fr.status == PipelineStatus::Completed
                                    && fr.completed_at == Some(now) && fr.stages@ == run.stages@.update(
                                    k,
                                    completed(with_metrics(run.stages@[k], m), now),
                                )
                            },
                            Err(e) => r matches Ok(RunAction::Failed(msg)) && msg@ == e@ && fr.status
                                == PipelineStatus::Failed && fr.completed_at == Some(now) && fr.stages@
                                == run.stages@.update(k, failed(run.stages@[k], e, now)),
                        },
                    }
                },
            },
            forall|other: u128| other != *run_id ==> final(self).run(other) == old(self).run(other),
    {
        proof {
            lemma_run_pos(self.runs@, *run_id);
        }
        let k = match self.find_run(*run_id) {
            Some(k) => k,
            None => {
                return Err(PipelineError::RunNotFound);
            },
        };
        if self.runs[k].status != PipelineStatus::Running {
            return Err(PipelineError::NotRunning);
        }
        proof {
            lemma_running_pos(self.runs@[k as int].stages@);
        }
        let s = match first_running(&self.runs[k].stages) {
            Some(s) => s,
            None => {
                return Err(PipelineError::NoStageRunning);
            },
        };
        let ghost old_run = self.runs@[k as int];
        let mut run = self.runs.remove(k);
        let ghost rest = self.runs@;
        let mut stage = run.stages.remove(s);
        let ghost g_outcome = outcome;
        let action;
        match outcome {
            Ok(m) => {
                stage.metrics = Some(m);
                stage.complete_at(now);
                run.stages.insert(s, stage);
                if s < run.stages.len() - 1 {
                    let mut next = run.stages.remove(s + 1);
                    next.start_at(now);
                    run.stages.insert(s + 1, next);
                    action = RunAction::Execute(s + 1);
                } else {
                    run.status = PipelineStatus::Completed;
                    run.completed_at = Some(now);
                    action = RunAction::Done;
                }
            },
            Err(e) => {
                let msg = crate::text::copy(&e);
                stage.fail_at(e, now);
                run.stages.insert(s, stage);
                run.status = PipelineStatus::Failed;
                run.completed_at = Some(now);
                action = RunAction::Failed(msg);
            },
        }
        let ghost fr = run;
        self.runs.insert(k, run);
        proof {
            assert(rest.insert(k as int, old_run) =~= old(self).runs@);
            assert(self.runs@ =~= old(self).runs@.update(k as int, fr));
            lemma_run_pos_update(old(self).runs@, *run_id, k as int, fr, *run_id);
            assert forall|other: u128| other != *run_id implies self.run(other) == old(self).run(other) by {
                lemma_run_pos(old(self).runs@, other);
                lemma_run_pos_update(old(self).runs@, *run_id, k as int, fr, other);
            }
            match g_outcome {
                Ok(m) => {
                    let done = completed(with_metrics(old_run.stages@[s as int], m), now);
                    if s + 1 < old_run.stages@.len() {
                        assert(fr.stages@ =~= old_run.stages@.update(s as int, done).update(
                            s + 1,
                            started(old_run.stages@[s + 1], now),
                        ));
                    } else {
                        assert(fr.stages@ =~= old_run.stages@.update(s as int, done));
                    }
                },
                Err(e) => {
                    assert(fr.stages@ =~= old_run.stages@.update(s as int, failed(old_run.stages@[s as int], e, now)));
                },
            }
        }
        Ok(action)
    }

    /// Cancels a run at `now`, unless it completed or failed.
    pub fn cancel_run_at(&mut self, run_id: &u128, now: i64) -> (r: Result<(), PipelineError>)
        ensures
            match old(self).run(*run_id) {
                None => r == Err::<(), PipelineError>(PipelineError::RunNotFound) && final(self).runs_view() == old(self).runs_view(),
                Some(run) => if run.status == PipelineStatus::Completed || run.status == PipelineStatus::Failed {
                    r == Err::<(), PipelineError>(PipelineError::AlreadyComplete) && final(self).runs_view() == old(self).runs_view()
                } else {
                    r is Ok && (final(self).run(*run_id) matches Some(fr) && same_identity(fr, run) && fr.status
                        == PipelineStatus::Cancelled && fr.completed_at == Some(now) && fr.stages@ == run.stages@)
                },
            },
            forall|other: u128| other != *run_id ==> final(self).run(other) == old(self).run(other),
    {
        proof {
            lemma_run_pos(self.runs@, *run_id);
        }
        let k = match self.find_run(*run_id) {
            Some(k) => k,
            None => {
                return Err(PipelineError::RunNotFound);
            },
        };
        if self.runs[k].is_complete() {
            return Err(PipelineError::AlreadyComplete);
        }
        let ghost old_run = self.runs@[k as int];
        let mut run = self.runs.remove(k);
        let ghost rest = self.runs@;
        run.status = PipelineStatus::Cancelled;
        run.completed_at = Some(now);
        let ghost fr = run;
        self.runs.insert(k, run);
        proof {
            assert(rest.insert(k as int, old_run) =~= old(self).runs@);
            assert(self.runs@ =~= old(self).runs@.update(k as int, fr));
            lemma_run_pos_update(old(self).runs@, *run_id, k as int, fr, *run_id);
            assert forall|other: u128| other != *run_id implies self.run(other) == old(self).run(other) by {
                lemma_run_pos(old(self).runs@, other);
                lemma_run_pos_update(old(self).runs@, *run_id, k as int, fr, other);
            }
        }
        Ok(())
    }

    /// Cancels a run now, unless it completed or failed.
    pub fn cancel_run(&mut self, run_id: &u128) -> (r: Result<(), PipelineError>)
        ensures
            match old(self).run(*run_id) {
                None => r == Err::<(), PipelineError>(PipelineError::RunNotFound) && final(self).runs_view() == old(self).runs_view(),
                Some(run) => if run.status == PipelineStatus::Completed || run.status == PipelineStatus::Failed {
                    r == Err::<(), PipelineError>(PipelineError::AlreadyComplete) && final(self).runs_view() == old(self).runs_view()
                } else {
                    r is Ok && (final(self).run(*run_id) matches Some(fr) && same_identity(fr, run) && fr.status
                        == PipelineStatus::Cancelled && fr.completed_at is Some && fr.stages@ == run.stages@)
                },
            },
            forall|other: u128| other != *run_id ==> final(self).run(other) == old(self).run(other),
    {
        self.cancel_run_at(run_id, clock::now())
    }

    /// Every run, in order of creation.
    pub fn list_runs(&self) -> (r: Vec<&PipelineRun<C, M>>)
        ensures
            r@.map_values(|x: &PipelineRun<C, M>| *x) == self.runs_view(),
    {
        let mut out: Vec<&PipelineRun<C, M>> = Vec::new();
        let mut i: usize = 0;
        while i < self.runs.len()
            invariant
                0 <= i <= self.runs@.len(),
                out@.map_values(|x: &PipelineRun<C, M>| *x) == self.runs@.take(i as int),
            decreases self.runs.len() - i,
        {
            let ghost before = out@.map_values(|x: &PipelineRun<C, M>| *x);
            out.push(&self.runs[i]);
            proof {
                assert(out@.map_values(|x: &PipelineRun<C, M>| *x) =~= before.push(self.runs@[i as int]));
                assert(self.runs@.take(i + 1) =~= self.runs@.take(i as int).push(self.runs@[i as int]));
            }
            i = i + 1;
        }
        proof {
            assert(self.runs@.take(self.runs@.len() as int) =~= self.runs@);
        }
        out
    }

    /// The runs with that status, in order of creation.
    pub fn list_runs_by_status(&self, status: &PipelineStatus) -> (r: Vec<&PipelineRun<C, M>>)
        ensures
            r@.map_values(|x: &PipelineRun<C, M>| *x) == runs_with_status(self.runs_view(), *status),
    {
        let mut out: Vec<&PipelineRun<C, M>> = Vec::new();
        let mut i: usize = 0;
        while i < self.runs.len()
            invariant
                0 <= i <= self.runs@.len(),
                out@.map_values(|x: &PipelineRun<C, M>| *x) == runs_with_status(self.runs@.take(i as int), *status),
            decreases self.runs.len() - i,
        {
            proof {
                assert(self.runs@.take(i + 1).drop_last() =~= self.runs@.take(i as int));
            }
            if self.runs[i].status == *status {
                let ghost before = out@.map_values(|x: &PipelineRun<C, M>| *x);
                out.push(&self.runs[i]);
                proof {
                    assert(out@.map_values(|x: &PipelineRun<C, M>| *x) =~= before.push(self.runs@[i as int]));
                }
            }
            i = i + 1;
        }
        proof {
            assert(self.runs@.take(self.runs@.len() as int) =~= self.runs@);
        }
        out
    }
}

impl<C, M> Default for TrainingPipeline<C, M> {
    fn default() -> (p: TrainingPipeline<C, M>)
        ensures
            p.runs_view().len() == 0,
    {
        TrainingPipeline::new()
    }
}

/// The stages before `k` completed, the stage at `k` running, and the
/// stages after it pending.
pub open spec fn in_progress<M>(ss: Seq<StageResult<M>>, k: int) -> bool {
    &&& 0 <= k < ss.len()
    &&& forall|j: int| 0 <= j < k ==> (#[trigger] ss[j]).status == PipelineStatus::Completed
    &&& ss[k].status == PipelineStatus::Running
    &&& forall|j: int| k < j < ss.len() ==> (#[trigger] ss[j]).status == PipelineStatus::Pending
}

/// Every stage completed.
pub open spec fn all_completed<M>(ss: Seq<StageResult<M>>) -> bool {
    forall|j: int| 0 <= j < ss.len() ==> (#[trigger] ss[j]).status == PipelineStatus::Completed
}

/// Starting a new run puts its first stage in progress.
pub proof fn lemma_start_puts_first_stage_in_progress<M>(now: i64)
    ensures
        in_progress(fresh_stages::<M>().update(0, started(fresh_stages::<M>()[0], now)), 0),
{
    let f = fresh_stages::<M>();
    assert(f.len() == 7);
    assert forall|j: int| 0 < j < f.len() implies (#[trigger] f.update(0, started(f[0], now))[j]).status
        == PipelineStatus::Pending by {
        assert(f[j] == pending_stage::<M>(stage_order()[j]));
    }
}

/// The stage in progress is the running stage that an outcome is recorded
/// for.
pub proof fn lemma_in_progress_is_running<M>(ss: Seq<StageResult<M>>, k: int)
    requires
        in_progress(ss, k),
    ensures
        running_pos(ss) == Some(k),
{
    lemma_running_pos_is_first(ss, k);
}

/// A stage that succeeds, and is not the last, puts the next stage in
/// progress: the stages run one at a time, in order.
pub proof fn lemma_success_advances<M>(ss: Seq<StageResult<M>>, k: int, m: M, now: i64)
    requires
        in_progress(ss, k),
        k + 1 < ss.len(),
    ensures
        in_progress(ss.update(k, completed(with_metrics(ss[k], m), now)).update(k + 1, started(ss[k + 1], now)), k + 1),
{
    let u = ss.update(k, completed(with_metrics(ss[k], m), now)).update(k + 1, started(ss[k + 1], now));
    assert forall|j: int| 0 <= j < k + 1 implies (#[trigger] u[j]).status == PipelineStatus::Completed by {
        if j < k {
            assert(u[j] == ss[j]);
        }
    }
    assert forall|j: int| k + 1 < j < u.len() implies (#[trigger] u[j]).status == PipelineStatus::Pending by {
        assert(u[j] == ss[j]);
    }
}

/// When the last stage succeeds, every stage has completed.
pub proof fn lemma_last_success_completes_every_stage<M>(ss: Seq<StageResult<M>>, k: int, m: M, now: i64)
    requires
        in_progress(ss, k),
        k + 1 == ss.len(),
    ensures
        all_completed(ss.update(k, completed(with_metrics(ss[k], m), now))),
{
    let u = ss.update(k, completed(with_metrics(ss[k], m), now));
    assert forall|j: int| 0 <= j < u.len() implies (#[trigger] u[j]).status == PipelineStatus::Completed by {
        if j < k {
            assert(u[j] == ss[j]);
        }
    }
}

/// A stage that fails fails alone: the stages before it stay completed and
/// no stage after it has run.
pub proof fn lemma_failure_stops_later_stages<M>(ss: Seq<StageResult<M>>, k: int, e: String, now: i64)
    requires
        in_progress(ss, k),
    ensures
        ({
            let u = ss.update(k, failed(ss[k], e, now));
            &&& u[k].status == PipelineStatus::Failed
            &&& forall|j: int| 0 <= j < k ==> (#[trigger] u[j]).status == PipelineStatus::Completed
            &&& forall|j: int| k < j < u.len() ==> (#[trigger] u[j]).status == PipelineStatus::Pending
        }),
{
    let u = ss.update(k, failed(ss[k], e, now));
    assert forall|j: int| 0 <= j < k implies (#[trigger] u[j]).status == PipelineStatus::Completed by {
        assert(u[j] == ss[j]);
    }
    assert forall|j: int| k < j < u.len() implies (#[trigger] u[j]).status == PipelineStatus::Pending by {
        assert(u[j] == ss[j]);
    }
}

} // verus!
