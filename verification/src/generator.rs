//! The series generator: control parameters, the working mean with its linear
//! drift, and the run that turns draws from a distribution into a series.
//!
//! Drawing a random sample is not done here. A run says from which
//! distribution the next draw is to be made, takes the outcome of that draw,
//! and decides what becomes of it.

use vstd::prelude::*;
use crate::gatekeeper::{gate_rejects, westgard_check};
use crate::rules::{
    above, below, beyond, rule_violated, run_above, run_below, same_side_run, window_matches, Rule,
};

verus! {

/// Imprecision is counted in parts per million of the target.
pub const PPM: i64 = 1_000_000;

/// The distribution from which observations are drawn.
#[derive(Clone, Copy, Debug, PartialEq, Eq, Structural)]
pub enum DistributionType {
    Normal,
    LogNormal,
}

/// The control parameters of one generation request.
#[derive(Clone, Copy, Debug)]
pub struct QCParams {
    /// The assigned value of the control material; must be positive.
    pub target: i64,
    /// Imprecision (coefficient of variation) in parts per million of the
    /// target; must be positive.
    pub cv: i64,
    /// Constant offset of the working mean from the target.
    pub bias: i64,
    /// What is added to the working mean after each emitted observation.
    pub drift_rate: i64,
    /// How many observations to emit; must be positive.
    pub num_days: usize,
    pub dist_type: DistributionType,
}

/// Why no series was generated.
#[derive(Clone, Copy, Debug, PartialEq, Eq, Structural)]
pub enum GenerateError {
    /// The target, the imprecision or the count is zero or negative.
    InvalidParameter,
    /// The standard deviation or a working mean of the run does not fit the
    /// number type.
    OutOfRange,
    /// Fewer draws were supplied than observations are to be emitted.
    MissingDraws,
    /// The retry budget of a constrained run ran out before an observation
    /// was accepted.
    LivenessRisk,
}

/// The sentence that describes an error.
pub open spec fn generate_error_text(e: GenerateError) -> Seq<char> {
    match e {
        GenerateError::InvalidParameter => "target, imprecision and count must all be greater than zero"@,
        GenerateError::OutOfRange => "the standard deviation or a working mean is too large to represent"@,
        GenerateError::MissingDraws => "fewer draws were supplied than observations requested"@,
        GenerateError::LivenessRisk => "no acceptable observation was found within the retry budget"@,
    }
}

impl GenerateError {
    /// A sentence for the person who supplied the input.
    pub fn message(&self) -> (text: String)
        ensures
            text@ == generate_error_text(*self),
    {
        match self {
            GenerateError::InvalidParameter => "target, imprecision and count must all be greater than zero".to_owned(),
            GenerateError::OutOfRange => "the standard deviation or a working mean is too large to represent".to_owned(),
            GenerateError::MissingDraws => "fewer draws were supplied than observations requested".to_owned(),
            GenerateError::LivenessRisk => "no acceptable observation was found within the retry budget".to_owned(),
        }
    }
}

/// The standard deviation that belongs to a target and an imprecision: their
/// product, brought from parts per million to whole units and rounded up.
pub open spec fn std_dev_of(target: int, cv: int) -> int {
    (target * cv + (PPM - 1)) / (PPM as int)
}

/// The working mean after `emitted` observations: it starts at target plus
/// bias and moves by the drift rate with each observation.
pub open spec fn working_mean(p: QCParams, emitted: int) -> int {
    p.target + p.bias + emitted * p.drift_rate
}

/// `v` can be held in an `i64`.
pub open spec fn fits_i64(v: int) -> bool {
    i64::MIN <= v <= i64::MAX
}

/// Target, imprecision and count are all positive.
pub open spec fn params_valid(p: QCParams) -> bool {
    p.target > 0 && p.cv > 0 && p.num_days > 0
}

/// The standard deviation and every working mean of the run can be held in an
/// `i64`.
pub open spec fn params_in_range(p: QCParams) -> bool {
    &&& fits_i64(std_dev_of(p.target as int, p.cv as int))
    &&& forall|k: int| 0 <= k < p.num_days ==> fits_i64(#[trigger] working_mean(p, k))
}

/// Brings an imprecision as a user typed it into the admissible range: the
/// sign is dropped, and zero becomes the smallest positive imprecision.
pub fn sanitize_cv(cv: i64) -> (safe: i64)
    ensures
        safe >= 1,
        cv >= 1 ==> safe == cv,
        cv == 0 ==> safe == 1,
        -i64::MAX <= cv <= -1 ==> safe == -cv,
        cv == i64::MIN ==> safe == i64::MAX,
{
    if cv >= 1 {
        cv
    } else if cv == 0 {
        1
    } else if cv == i64::MIN {
        i64::MAX
    } else {
        -cv
    }
}

/// The product of two positive numbers is positive.
proof fn lemma_product_positive(a: int, b: int)
    by (nonlinear_arith)
    requires
        a > 0,
        b > 0,
    ensures
        a * b >= 1,
        a * b >= a,
        a * b >= b,
{
}

/// The product of two `i64` numbers stays far inside the range of `i128`.
proof fn lemma_product_bound(a: int, b: int)
    by (nonlinear_arith)
    requires
        -0x8000_0000_0000_0000 <= a <= 0xffff_ffff_ffff_ffff,
        -0x8000_0000_0000_0000 <= b <= 0x7fff_ffff_ffff_ffff,
    ensures
        -0x8000_0000_0000_0000_0000_0000_0000_0000 < a * b < 0x8000_0000_0000_0000_0000_0000_0000_0000,
{
}

/// The product of two positive `i64` numbers leaves room below the top of `i128`.
proof fn lemma_positive_product_bound(a: int, b: int)
    by (nonlinear_arith)
    requires
        0 < a <= 0x7fff_ffff_ffff_ffff,
        0 < b <= 0x7fff_ffff_ffff_ffff,
    ensures
        a * b <= 0x4000_0000_0000_0000_0000_0000_0000_0000,
{
}

/// Between the first and the last working mean lie all the others.
proof fn lemma_mean_between(base: int, drift: int, last: int, k: int)
    by (nonlinear_arith)
    requires
        0 <= k <= last,
    ensures
        drift >= 0 ==> base <= base + k * drift <= base + last * drift,
        drift <= 0 ==> base + last * drift <= base + k * drift <= base,
{
}

/// A positive target and a positive imprecision give a positive standard
/// deviation: the least number of whole units that is not below
/// `target * cv / PPM`.
pub proof fn lemma_std_dev_positive(target: int, cv: int)
    requires
        target > 0,
        cv > 0,
    ensures
        std_dev_of(target, cv) > 0,
        (std_dev_of(target, cv) - 1) * PPM < target * cv <= std_dev_of(target, cv) * PPM,
{
    lemma_product_positive(target, cv);
}

/// Derives the standard deviation from target and imprecision.
///
/// Both must be positive. The result is then positive too: the least number of
/// whole units that is not below `target * cv / PPM`.
pub fn derive_std_dev(target: i64, cv: i64) -> (out: Result<i64, GenerateError>)
    ensures
        out matches Err(e) ==> (e == GenerateError::InvalidParameter && (target <= 0 || cv <= 0))
            || (e == GenerateError::OutOfRange && target > 0 && cv > 0 && !fits_i64(
            std_dev_of(target as int, cv as int),
        )),
        out matches Ok(sd) ==> {
            &&& target > 0 && cv > 0
            &&& sd == std_dev_of(target as int, cv as int)
            &&& sd > 0
            &&& (sd - 1) * PPM < target * cv <= sd * PPM
        },
{
    if target <= 0 || cv <= 0 {
        return Err(GenerateError::InvalidParameter);
    }
    proof {
        lemma_product_positive(target as int, cv as int);
        lemma_positive_product_bound(target as int, cv as int);
    }
    let product: i128 = (target as i128) * (cv as i128);
    let sd: i128 = (product + 999_999) / 1_000_000;
    if sd > i64::MAX as i128 {
        return Err(GenerateError::OutOfRange);
    }
    Ok(sd as i64)
}

/// Checks the parameters of a request and derives its standard deviation.
///
/// Nothing is drawn and nothing is emitted before this has succeeded.
pub fn validate(params: &QCParams) -> (out: Result<i64, GenerateError>)
    ensures
        out matches Err(e) ==> (e == GenerateError::InvalidParameter && !params_valid(*params)) || (e
            == GenerateError::OutOfRange && params_valid(*params) && !params_in_range(*params)),
        out matches Ok(sd) ==> {
            &&& params_valid(*params)
            &&& params_in_range(*params)
            &&& sd == std_dev_of(params.target as int, params.cv as int)
            &&& sd > 0
        },
{
    if params.target <= 0 || params.cv <= 0 || params.num_days == 0 {
        return Err(GenerateError::InvalidParameter);
    }
    let sd = match derive_std_dev(params.target, params.cv) {
        Ok(sd) => sd,
        Err(e) => {
            return Err(GenerateError::OutOfRange);
        },
    };
    let last: usize = params.num_days - 1;
    let first_mean: i128 = params.target as i128 + params.bias as i128;
    proof {
        lemma_product_bound(last as int, params.drift_rate as int);
        assert(working_mean(*params, 0) == first_mean);
    }
    let travel: i128 = (last as i128) * (params.drift_rate as i128);
    let reach: i128 = 0x2_0000_0000_0000_0000;
    if travel > reach || travel < -reach {
        assert(!fits_i64(working_mean(*params, last as int)));
        return Err(GenerateError::OutOfRange);
    }
    let last_mean: i128 = first_mean + travel;
    if first_mean < i64::MIN as i128 || first_mean > i64::MAX as i128 || last_mean < i64::MIN as i128
        || last_mean > i64::MAX as i128 {
        assert(!fits_i64(working_mean(*params, 0)) || !fits_i64(working_mean(*params, last as int)));
        return Err(GenerateError::OutOfRange);
    }
    proof {
        assert forall|k: int| 0 <= k < params.num_days implies fits_i64(
            #[trigger] working_mean(*params, k),
        ) by {
            lemma_mean_between(first_mean as int, params.drift_rate as int, last as int, k);
        }
    }
    Ok(sd)
}

/// Computes the working mean after `emitted` observations.
fn mean_at(params: &QCParams, emitted: usize) -> (mean: i64)
    requires
        emitted < params.num_days,
        params_in_range(*params),
    ensures
        mean == working_mean(*params, emitted as int),
{
    proof {
        lemma_product_bound(emitted as int, params.drift_rate as int);
        assert(fits_i64(working_mean(*params, emitted as int)));
    }
    let travel: i128 = (emitted as i128) * (params.drift_rate as i128);
    let mean: i128 = params.target as i128 + params.bias as i128 + travel;
    mean as i64
}

/// What came of one draw.
#[derive(Clone, Copy, Debug, PartialEq, Eq, Structural)]
pub enum DrawOutcome {
    /// The distribution gave this sample.
    Sample(i64),
    /// No distribution could be built from the requested mean and standard
    /// deviation.
    Degenerate,
}

/// From where the next candidate is to come.
#[derive(Clone, Copy, Debug, PartialEq, Eq, Structural)]
pub enum DrawPlan {
    /// Draw from `dist`, made to have this arithmetic mean and standard
    /// deviation.
    Sample { dist: DistributionType, mean: i64, std_dev: i64 },
    /// No draw: a log-normal distribution has no mean of zero or less, so the
    /// working mean itself is the candidate.
    Fallback { mean: i64 },
}

/// How candidates become observations.
#[derive(Clone, Copy, Debug, PartialEq, Eq, Structural)]
pub enum SamplingMode {
    /// Every candidate is emitted.
    Unconstrained,
    /// A candidate is emitted only if it lies in the acceptance band and the
    /// gatekeeper lets it through; for each observation at most `max_retries`
    /// candidates may be refused.
    Constrained { max_retries: u64 },
}

/// What a run did with a draw.
#[derive(Clone, Copy, Debug, PartialEq, Eq, Structural)]
pub enum Verdict {
    /// The candidate was appended to the series.
    Accepted,
    /// The candidate was discarded; another draw is wanted for the same
    /// observation.
    Rejected,
    /// The series was complete already; the draw was ignored.
    Idle,
}

/// The state of a run, as contracts see it.
pub struct RunState {
    pub params: QCParams,
    pub mode: SamplingMode,
    /// The observations emitted so far.
    pub series: Seq<i64>,
    /// How many more candidates may be refused for the observation in hand.
    pub retries_left: nat,
    /// The retry budget ran out.
    pub exhausted: bool,
}

/// The standard deviation of a run.
pub open spec fn run_std_dev(p: QCParams) -> int {
    std_dev_of(p.target as int, p.cv as int)
}

/// No sample is drawn for the observation after `emitted` others: the
/// distribution is log-normal and the working mean is zero or less.
pub open spec fn falls_back(p: QCParams, emitted: int) -> bool {
    p.dist_type == DistributionType::LogNormal && working_mean(p, emitted) <= 0
}

/// The plan for the observation after `emitted` others.
pub open spec fn plan_of(p: QCParams, emitted: int) -> DrawPlan {
    if falls_back(p, emitted) {
        DrawPlan::Fallback { mean: working_mean(p, emitted) as i64 }
    } else {
        DrawPlan::Sample {
            dist: p.dist_type,
            mean: working_mean(p, emitted) as i64,
            std_dev: run_std_dev(p) as i64,
        }
    }
}

/// The candidate that a draw's outcome stands for, as the observation after
/// `emitted` others: the sample, or the working mean where none was or could
/// be drawn.
pub open spec fn candidate_of(p: QCParams, emitted: int, outcome: DrawOutcome) -> i64 {
    match outcome {
        DrawOutcome::Sample(v) if !falls_back(p, emitted) => v,
        _ => working_mean(p, emitted) as i64,
    }
}

/// The candidate lies in the acceptance band: at most two standard deviations
/// from the target.
pub open spec fn in_band(candidate: i64, target: int, std_dev: int) -> bool {
    target - 2 * std_dev <= candidate as int <= target + 2 * std_dev
}

/// A constrained run accepts `candidate` after `series`: it lies in the band,
/// and the gatekeeper does not refuse it.
pub open spec fn acceptable(series: Seq<i64>, candidate: i64, target: int, std_dev: int) -> bool {
    in_band(candidate, target, std_dev) && !gate_rejects(series, candidate, target, std_dev)
}

/// Each observation of `series` was acceptable after those before it.
pub open spec fn well_gated(series: Seq<i64>, target: int, std_dev: int) -> bool {
    forall|i: int|
        0 <= i < series.len() ==> acceptable(#[trigger] series.take(i), series[i], target, std_dev)
}

/// The retry budget of a mode; an unconstrained run needs none.
pub open spec fn budget_of(mode: SamplingMode) -> nat {
    match mode {
        SamplingMode::Unconstrained => 0,
        SamplingMode::Constrained { max_retries } => max_retries as nat,
    }
}

/// The state in which a run begins.
pub open spec fn initial_state(p: QCParams, mode: SamplingMode) -> RunState {
    RunState { params: p, mode, series: Seq::empty(), retries_left: budget_of(mode), exhausted: false }
}

/// What holds of every state of a run.
pub open spec fn state_wf(st: RunState) -> bool {
    &&& params_valid(st.params)
    &&& params_in_range(st.params)
    &&& st.series.len() <= st.params.num_days
    &&& st.retries_left <= budget_of(st.mode)
    &&& st.mode is Unconstrained ==> !st.exhausted
    &&& st.mode is Constrained ==> well_gated(st.series, st.params.target as int, run_std_dev(st.params))
}

/// The series is complete.
pub open spec fn finished(st: RunState) -> bool {
    st.series.len() >= st.params.num_days
}

/// The run takes `candidate` as its next observation.
pub open spec fn takes(st: RunState, candidate: i64) -> bool {
    st.mode is Unconstrained || acceptable(
        st.series,
        candidate,
        st.params.target as int,
        run_std_dev(st.params),
    )
}

/// One step of a run: the state after `outcome` was offered, and the answer
/// given for it.
///
/// A complete run ignores the draw. A run whose budget ran out stays as it is
/// and reports the liveness risk again. Otherwise the candidate is either
/// appended, which restores the budget, or refused, which uses up one retry;
/// the refusal that finds no retry left exhausts the run.
pub open spec fn step(st: RunState, outcome: DrawOutcome) -> (RunState, Result<Verdict, GenerateError>) {
    let candidate = candidate_of(st.params, st.series.len() as int, outcome);
    if finished(st) {
        (st, Ok(Verdict::Idle))
    } else if st.exhausted {
        (st, Err(GenerateError::LivenessRisk))
    } else if takes(st, candidate) {
        (
            RunState { series: st.series.push(candidate), retries_left: budget_of(st.mode), ..st },
            Ok(Verdict::Accepted),
        )
    } else if st.retries_left == 0 {
        (RunState { exhausted: true, ..st }, Err(GenerateError::LivenessRisk))
    } else {
        (RunState { retries_left: (st.retries_left - 1) as nat, ..st }, Ok(Verdict::Rejected))
    }
}

/// A generation run: it asks for draws, one at a time, and builds the series
/// from what is offered.
pub struct Generator {
    params: QCParams,
    std_dev: i64,
    mode: SamplingMode,
    series: Vec<i64>,
    retries_left: u64,
    exhausted: bool,
}

impl View for Generator {
    type V = RunState;

    closed spec fn view(&self) -> RunState {
        RunState {
            params: self.params,
            mode: self.mode,
            series: self.series@,
            retries_left: self.retries_left as nat,
            exhausted: self.exhausted,
        }
    }
}

impl Generator {
    /// The run is in a state that `start` and `offer` can have left it in.
    pub closed spec fn wf(&self) -> bool {
        state_wf(self@) && self.std_dev == run_std_dev(self.params)
    }

    /// A well-formed run is in a well-formed state.
    pub proof fn lemma_wf_state(&self)
        requires
            self.wf(),
        ensures
            state_wf(self@),
    {
    }

    /// Begins a run. Invalid parameters are refused here, before any draw.
    pub fn start(params: QCParams, mode: SamplingMode) -> (out: Result<Generator, GenerateError>)
        ensures
            out matches Err(e) ==> (e == GenerateError::InvalidParameter && !params_valid(params)) || (e
                == GenerateError::OutOfRange && params_valid(params) && !params_in_range(params)),
            out matches Ok(run) ==> params_valid(params) && params_in_range(params) && run@
                == initial_state(params, mode) && run.wf(),
    {
        let std_dev = match validate(&params) {
            Ok(sd) => sd,
            Err(e) => {
                return Err(e);
            },
        };
        let retries_left: u64 = match mode {
            SamplingMode::Unconstrained => 0,
            SamplingMode::Constrained { max_retries } => max_retries,
        };
        let series: Vec<i64> = Vec::new();
        assert(series@ =~= Seq::<i64>::empty());
        Ok(Generator { params, std_dev, mode, series, retries_left, exhausted: false })
    }

    /// The observations emitted so far.
    pub fn series(&self) -> (series: &Vec<i64>)
        ensures
            series@ == self@.series,
    {
        &self.series
    }

    /// Ends the run and hands out its series.
    pub fn into_series(self) -> (series: Vec<i64>)
        ensures
            series@ == self@.series,
    {
        self.series
    }

    /// Whether the series is complete.
    pub fn is_finished(&self) -> (done: bool)
        ensures
            done == finished(self@),
    {
        self.series.len() >= self.params.num_days
    }

    /// Whether the retry budget ran out.
    pub fn is_exhausted(&self) -> (exhausted: bool)
        ensures
            exhausted == self@.exhausted,
    {
        self.exhausted
    }

    /// The draw that the run wants next; `None` once the series is complete or
    /// the budget has run out.
    pub fn next_draw(&self) -> (plan: Option<DrawPlan>)
        requires
            self.wf(),
        ensures
            finished(self@) || self@.exhausted ==> plan is None,
            !finished(self@) && !self@.exhausted ==> plan == Some(
                plan_of(self@.params, self@.series.len() as int),
            ),
    {
        let emitted = self.series.len();
        if emitted >= self.params.num_days || self.exhausted {
            return None;
        }
        let mean = mean_at(&self.params, emitted);
        match self.params.dist_type {
            DistributionType::LogNormal if mean <= 0 => Some(DrawPlan::Fallback { mean }),
            dist => Some(DrawPlan::Sample { dist, mean, std_dev: self.std_dev }),
        }
    }

    /// Offers the outcome of a draw and says what the run did with it.
    pub fn offer(&mut self, outcome: DrawOutcome) -> (out: Result<Verdict, GenerateError>)
        requires
            old(self).wf(),
        ensures
            final(self).wf(),
            final(self)@ == step(old(self)@, outcome).0,
            out == step(old(self)@, outcome).1,
    {
        proof {
            lemma_std_dev_positive(self.params.target as int, self.params.cv as int);
        }
        let emitted = self.series.len();
        if emitted >= self.params.num_days {
            return Ok(Verdict::Idle);
        }
        if self.exhausted {
            return Err(GenerateError::LivenessRisk);
        }
        let mean = mean_at(&self.params, emitted);
        let candidate = match outcome {
            DrawOutcome::Sample(v) => {
                match self.params.dist_type {
                    DistributionType::LogNormal if mean <= 0 => mean,
                    _ => v,
                }
            },
            DrawOutcome::Degenerate => mean,
        };
        let taken = match self.mode {
            SamplingMode::Unconstrained => true,
            SamplingMode::Constrained { max_retries } => {
                let reach: i128 = 2 * (self.std_dev as i128);
                let d: i128 = candidate as i128 - self.params.target as i128;
                if d > reach || -d > reach {
                    false
                } else {
                    match westgard_check(self.series.as_slice(), candidate, self.params.target, self.std_dev) {
                        Ok(accepted) => accepted,
                        Err(_) => false,
                    }
                }
            },
        };
        if taken {
            let ghost before = self.series@;
            self.series.push(candidate);
            self.retries_left = match self.mode {
                SamplingMode::Unconstrained => 0,
                SamplingMode::Constrained { max_retries } => max_retries,
            };
            proof {
                if self.mode is Constrained {
                    lemma_well_gated_push(
                        before,
                        candidate,
                        self.params.target as int,
                        run_std_dev(self.params),
                    );
                }
            }
            Ok(Verdict::Accepted)
        } else if self.retries_left == 0 {
            self.exhausted = true;
            Err(GenerateError::LivenessRisk)
        } else {
            self.retries_left = self.retries_left - 1;
            Ok(Verdict::Rejected)
        }
    }
}

/// Appending an acceptable candidate to a well-gated series leaves it well
/// gated.
pub proof fn lemma_well_gated_push(series: Seq<i64>, candidate: i64, target: int, std_dev: int)
    requires
        well_gated(series, target, std_dev),
        acceptable(series, candidate, target, std_dev),
    ensures
        well_gated(series.push(candidate), target, std_dev),
{
    let longer = series.push(candidate);
    assert forall|i: int| 0 <= i < longer.len() implies acceptable(
        #[trigger] longer.take(i),
        longer[i],
        target,
        std_dev,
    ) by {
        if i < series.len() {
            assert(longer.take(i) =~= series.take(i));
            assert(longer[i] == series[i]);
        } else {
            assert(longer.take(i) =~= series);
        }
    }
}

/// The series of an unconstrained run: observation `i` is the candidate that
/// draw `i` stands for.
pub open spec fn unconstrained_series(p: QCParams, draws: Seq<DrawOutcome>) -> Seq<i64> {
    Seq::new(p.num_days as nat, |i: int| candidate_of(p, i, draws[i]))
}

/// The noise of a draw: how far its sample lies from the working mean from
/// which it was drawn; nothing where the draw was degenerate or the plan was
/// a fallback.
pub open spec fn noise_of(p: QCParams, emitted: int, outcome: DrawOutcome) -> int {
    match outcome {
        DrawOutcome::Sample(v) if !falls_back(p, emitted) => v - working_mean(p, emitted),
        _ => 0,
    }
}

/// Generates a series without constraints from the outcomes of its draws.
///
/// Draw `i` is expected to have been made as `plan_of(params, i)` says. The
/// parameters are checked first; then there must be a draw for each of the
/// `num_days` observations (further draws are ignored). Observation `i` is
/// sample `i`, or the working mean where the draw was degenerate or the plan
/// was a fallback. In other words, observation `i` is the target plus the
/// bias plus `i` times the drift rate, plus the noise of draw `i`.
pub fn generate_data(params: &QCParams, draws: &[DrawOutcome]) -> (out: Result<Vec<i64>, GenerateError>)
    ensures
        out matches Ok(series) ==> {
            &&& params_valid(*params)
            &&& params_in_range(*params)
            &&& draws@.len() >= params.num_days
            &&& series@ == unconstrained_series(*params, draws@)
            &&& forall|i: int|
                0 <= i < params.num_days ==> #[trigger] series@[i] == params.target + params.bias + i
                    * params.drift_rate + noise_of(*params, i, draws@[i])
        },
        out matches Err(e) ==> match e {
            GenerateError::InvalidParameter => !params_valid(*params),
            GenerateError::OutOfRange => params_valid(*params) && !params_in_range(*params),
            GenerateError::MissingDraws => params_valid(*params) && params_in_range(*params)
                && draws@.len() < params.num_days,
            GenerateError::LivenessRisk => false,
        },
{
    match validate(params) {
        Ok(_) => {},
        Err(e) => {
            return Err(e);
        },
    }
    if draws.len() < params.num_days {
        return Err(GenerateError::MissingDraws);
    }
    let mut series: Vec<i64> = Vec::new();
    let mut i: usize = 0;
    while i < params.num_days
        invariant
            i <= params.num_days <= draws@.len(),
            params_in_range(*params),
            series@.len() == i,
            forall|k: int| 0 <= k < i ==> series@[k] == candidate_of(*params, k, draws@[k]),
        decreases params.num_days - i,
    {
        let mean = mean_at(params, i);
        let candidate = match draws[i] {
            DrawOutcome::Sample(v) => {
                match params.dist_type {
                    DistributionType::LogNormal if mean <= 0 => mean,
                    _ => v,
                }
            },
            DrawOutcome::Degenerate => mean,
        };
        series.push(candidate);
        i += 1;
    }
    assert(series@ =~= unconstrained_series(*params, draws@));
    Ok(series)
}

/// The plan for the observation after `emitted` others, for a caller who
/// draws ahead of `generate_data`.
pub fn draw_plan(params: &QCParams, emitted: usize) -> (out: Result<Option<DrawPlan>, GenerateError>)
    ensures
        out matches Err(e) ==> (e == GenerateError::InvalidParameter && !params_valid(*params)) || (e
            == GenerateError::OutOfRange && params_valid(*params) && !params_in_range(*params)),
        out matches Ok(plan) ==> {
            &&& params_valid(*params)
            &&& params_in_range(*params)
            &&& emitted >= params.num_days ==> plan is None
            &&& emitted < params.num_days ==> plan == Some(plan_of(*params, emitted as int))
        },
{
    let std_dev = match validate(params) {
        Ok(sd) => sd,
        Err(e) => {
            return Err(e);
        },
    };
    if emitted >= params.num_days {
        return Ok(None);
    }
    let mean = mean_at(params, emitted);
    match params.dist_type {
        DistributionType::LogNormal if mean <= 0 => Ok(Some(DrawPlan::Fallback { mean })),
        dist => Ok(Some(DrawPlan::Sample { dist, mean, std_dev })),
    }
}

/// Every step of a run leaves a well-formed state well formed. In particular
/// the series never grows beyond the requested count, and a constrained run
/// never holds an observation that the band or the gatekeeper would have
/// refused.
pub proof fn lemma_step_keeps_wf(st: RunState, outcome: DrawOutcome)
    requires
        state_wf(st),
    ensures
        state_wf(step(st, outcome).0),
{
    let candidate = candidate_of(st.params, st.series.len() as int, outcome);
    if !finished(st) && !st.exhausted && takes(st, candidate) && st.mode is Constrained {
        lemma_well_gated_push(st.series, candidate, st.params.target as int, run_std_dev(st.params));
    }
}

/// An unconstrained run takes every candidate: while the series is
/// incomplete, a step appends the candidate of the offered draw.
pub proof fn lemma_unconstrained_step(st: RunState, outcome: DrawOutcome)
    requires
        state_wf(st),
        st.mode is Unconstrained,
        !finished(st),
    ensures
        step(st, outcome).1 == Ok::<Verdict, GenerateError>(Verdict::Accepted),
        step(st, outcome).0.series == st.series.push(
            candidate_of(st.params, st.series.len() as int, outcome),
        ),
{
}

/// The plan of draw `i` (counted from zero) carries the mean that has
/// drifted `i` times from the target plus the bias, together with the
/// standard deviation derived from target and imprecision.
pub proof fn lemma_plan_carries_mean(p: QCParams, i: int)
    requires
        params_in_range(p),
        0 <= i < p.num_days,
    ensures
        match plan_of(p, i) {
            DrawPlan::Sample { dist, mean, std_dev } => dist == p.dist_type && mean == p.target
                + p.bias + i * p.drift_rate && std_dev == std_dev_of(p.target as int, p.cv as int),
            DrawPlan::Fallback { mean } => p.dist_type == DistributionType::LogNormal && mean <= 0
                && mean == p.target + p.bias + i * p.drift_rate,
        },
{
    assert(fits_i64(working_mean(p, i)));
}

/// Drift and noise: observation `i` (counted from zero) lies as far from the
/// target plus the bias plus `i` times the drift rate as sample `i` lies from
/// the mean of its draw. So with an imprecision near nothing, where each
/// sample is within `eps` of its mean, each observation is within `eps` of
/// the drifting mean.
pub proof fn lemma_drift_and_noise(p: QCParams, draws: Seq<DrawOutcome>, i: int, eps: int)
    requires
        params_in_range(p),
        0 <= i < p.num_days,
        -eps <= noise_of(p, i, draws[i]) <= eps,
    ensures
        unconstrained_series(p, draws)[i] == p.target + p.bias + i * p.drift_rate + noise_of(
            p,
            i,
            draws[i],
        ),
        -eps <= unconstrained_series(p, draws)[i] - (p.target + p.bias + i * p.drift_rate) <= eps,
{
    assert(fits_i64(working_mean(p, i)));
}

/// Pure drift: where every draw hands back its working mean, or is
/// degenerate, observation `i` (counted from zero) is the target plus the
/// bias plus `i` times the drift rate.
pub proof fn lemma_pure_drift(p: QCParams, draws: Seq<DrawOutcome>, i: int)
    requires
        params_in_range(p),
        0 <= i < p.num_days,
        draws[i] == DrawOutcome::Degenerate || draws[i] == DrawOutcome::Sample(
            working_mean(p, i) as i64,
        ),
    ensures
        unconstrained_series(p, draws)[i] == p.target + p.bias + i * p.drift_rate,
{
    assert(fits_i64(working_mean(p, i)));
}

/// A sample outside the acceptance band is never emitted by a constrained
/// run: the step refuses it.
pub proof fn lemma_constrained_refuses_outside_band(st: RunState, outcome: DrawOutcome)
    requires
        state_wf(st),
        st.mode is Constrained,
        !finished(st),
        !st.exhausted,
        !in_band(
            candidate_of(st.params, st.series.len() as int, outcome),
            st.params.target as int,
            run_std_dev(st.params),
        ),
    ensures
        step(st, outcome).0.series == st.series,
        step(st, outcome).1 != Ok::<Verdict, GenerateError>(Verdict::Accepted),
{
}

/// The acceptance band is the gatekeeper's first test: a candidate lies in
/// the band exactly when it is not more than two standard deviations from the
/// target, so a constrained run accepts what the gatekeeper does not refuse.
pub proof fn lemma_band_is_first_test(series: Seq<i64>, candidate: i64, target: int, std_dev: int)
    ensures
        in_band(candidate, target, std_dev) == !beyond(candidate, target, 2 * std_dev),
        acceptable(series, candidate, target, std_dev) == !gate_rejects(
            series,
            candidate,
            target,
            std_dev,
        ),
{
}

/// Every observation of a well-gated series lies in the acceptance band.
pub proof fn lemma_gated_in_band(series: Seq<i64>, target: int, std_dev: int, i: int)
    requires
        well_gated(series, target, std_dev),
        0 <= i < series.len(),
    ensures
        in_band(series[i], target, std_dev),
{
    assert(acceptable(series.take(i), series[i], target, std_dev));
}

/// What the two rule sets share: a well-gated series violates none of the
/// audit rules 1-3s, 2-2s, R-4s and 10x. Of 3-1s, 4-1s and 7-T nothing of the
/// kind holds; the gatekeeper's tests are other tests.
pub proof fn lemma_gated_passes_shared_rules(series: Seq<i64>, target: int, std_dev: int)
    requires
        std_dev > 0,
        well_gated(series, target, std_dev),
    ensures
        !rule_violated(Rule::OneThreeS, series, target, std_dev),
        !rule_violated(Rule::TwoTwoS, series, target, std_dev),
        !rule_violated(Rule::RFourS, series, target, std_dev),
        !rule_violated(Rule::TenX, series, target, std_dev),
{
    assert forall|start: int| 0 <= start && start + 1 <= series.len() implies !window_matches(
        Rule::OneThreeS,
        series,
        start,
        target,
        std_dev,
    ) by {
        lemma_gated_in_band(series, target, std_dev, start);
    }
    assert forall|start: int| 0 <= start && start + 2 <= series.len() implies !window_matches(
        Rule::TwoTwoS,
        series,
        start,
        target,
        std_dev,
    ) by {
        lemma_gated_in_band(series, target, std_dev, start);
    }
    assert forall|start: int| 0 <= start && start + 2 <= series.len() implies !window_matches(
        Rule::RFourS,
        series,
        start,
        target,
        std_dev,
    ) by {
        lemma_gated_in_band(series, target, std_dev, start);
    }
    assert forall|start: int| 0 <= start && start + 10 <= series.len() implies !window_matches(
        Rule::TenX,
        series,
        start,
        target,
        std_dev,
    ) by {
        let last = start + 9;
        let before = series.take(last);
        assert(acceptable(before, series[last], target, std_dev));
        let extended = before.push(series[last]);
        assert(!same_side_run(extended, start, 10, target, 0));
        assert forall|j: int| start <= j < start + 10 implies extended[j] == series[j] by {}
        if run_above(series, start, 10, target, 0) {
            assert forall|j: int| start <= j < start + 10 implies above(
                #[trigger] extended[j],
                target,
                0,
            ) by {
                assert(above(series[j], target, 0));
            }
        }
        if run_below(series, start, 10, target, 0) {
            assert forall|j: int| start <= j < start + 10 implies below(
                #[trigger] extended[j],
                target,
                0,
            ) by {
                assert(below(series[j], target, 0));
            }
        }
    }
}

/// The state of a run after the draws of `draws` were offered in order.
pub open spec fn run_over(st: RunState, draws: Seq<DrawOutcome>) -> RunState
    decreases draws.len(),
{
    if draws.len() == 0 {
        st
    } else {
        step(run_over(st, draws.drop_last()), draws.last()).0
    }
}

/// A step never changes what was emitted before it: the series stays as it
/// is or grows by one observation at its end.
pub proof fn lemma_step_extends(st: RunState, outcome: DrawOutcome)
    ensures
        step(st, outcome).0.series == st.series || step(st, outcome).0.series == st.series.push(
            candidate_of(st.params, st.series.len() as int, outcome),
        ),
        step(st, outcome).0.params == st.params,
        step(st, outcome).0.mode == st.mode,
{
}

/// After `k` draws an unconstrained run holds the first `k` observations of
/// the series that `generate_data` returns, and all of them once there were
/// as many draws as observations wanted.
pub proof fn lemma_unconstrained_prefix(p: QCParams, draws: Seq<DrawOutcome>, k: int)
    requires
        params_valid(p),
        params_in_range(p),
        0 <= k <= draws.len(),
    ensures
        run_over(initial_state(p, SamplingMode::Unconstrained), draws.take(k)).series
            == unconstrained_series(p, draws).take(if k <= p.num_days {
            k
        } else {
            p.num_days as int
        }),
        state_wf(run_over(initial_state(p, SamplingMode::Unconstrained), draws.take(k))),
        run_over(initial_state(p, SamplingMode::Unconstrained), draws.take(k)).params == p,
        run_over(initial_state(p, SamplingMode::Unconstrained), draws.take(k)).mode
            == SamplingMode::Unconstrained,
    decreases k,
{
    let init = initial_state(p, SamplingMode::Unconstrained);
    let whole = unconstrained_series(p, draws);
    if k == 0 {
        assert(draws.take(0) =~= Seq::<DrawOutcome>::empty());
        assert(whole.take(0) =~= Seq::<i64>::empty());
    } else {
        lemma_unconstrained_prefix(p, draws, k - 1);
        assert(draws.take(k).drop_last() =~= draws.take(k - 1));
        assert(draws.take(k).last() == draws[k - 1]);
        let before = run_over(init, draws.take(k - 1));
        lemma_step_keeps_wf(before, draws[k - 1]);
        if k <= p.num_days {
            assert(before.series.len() == k - 1);
            assert(whole.take(k) =~= whole.take(k - 1).push(candidate_of(p, k - 1, draws[k - 1])));
        }
    }
}

/// The run and the batch agree: offering the draws one by one to an
/// unconstrained run gives the series that `generate_data` returns for them.
pub proof fn lemma_run_is_batch(p: QCParams, draws: Seq<DrawOutcome>)
    requires
        params_valid(p),
        params_in_range(p),
        draws.len() >= p.num_days,
    ensures
        run_over(initial_state(p, SamplingMode::Unconstrained), draws).series == unconstrained_series(
            p,
            draws,
        ),
{
    lemma_unconstrained_prefix(p, draws, draws.len() as int);
    assert(draws.take(draws.len() as int) =~= draws);
    assert(unconstrained_series(p, draws).take(p.num_days as int) =~= unconstrained_series(p, draws));
}

} // verus!
