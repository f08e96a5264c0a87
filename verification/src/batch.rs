//! Many compressions, one after another. A failure is recorded under the
//! input it belongs to and the next input is taken up; nothing is skipped
//! and nothing runs out of order.

use vstd::prelude::*;
use vstd::string::*;
use crate::error::{append_quoted, error_message, quoted, CompressError, ErrorView};
use crate::job::{
    compress_image, initial, lemma_step_keeps_well_formed, names_format, Action, ActionView,
    CompressJob, CompressResult, Event, EventView, JobView, ResultView,
};
use crate::options::CompressOptions;
use crate::text::views;

verus! {

/// One input that could not be compressed, and why.
#[derive(Debug)]
pub struct BatchFailure {
    /// The input path, as it was given to the batch.
    pub input_path: String,
    /// Why its compression failed.
    pub error: CompressError,
}

/// What a `BatchFailure` holds, as mathematical text.
pub struct FailureView {
    pub input_path: Seq<char>,
    pub error: ErrorView,
}

impl View for BatchFailure {
    type V = FailureView;

    open spec fn view(&self) -> FailureView {
        FailureView { input_path: self.input_path@, error: self.error@ }
    }
}

/// The line that reports a failure: the input between quotes, then the
/// message of its error.
pub open spec fn failure_message(failure: FailureView) -> Seq<char> {
    "压缩文件 "@ + quoted(failure.input_path) + " 失败: "@ + error_message(failure.error)
}

/// The views of a list of results, in order.
pub open spec fn result_views(v: Seq<CompressResult>) -> Seq<ResultView> {
    v.map_values(|r: CompressResult| r@)
}

/// The views of a list of failures, in order.
pub open spec fn failure_views(v: Seq<BatchFailure>) -> Seq<FailureView> {
    v.map_values(|f: BatchFailure| f@)
}

/// The lines that report a list of failures, in order.
pub open spec fn failure_messages(failures: Seq<FailureView>) -> Seq<Seq<char>> {
    failures.map_values(|f: FailureView| failure_message(f))
}

/// `lines` as one text, with a line feed between any two of them.
pub open spec fn join_lines(lines: Seq<Seq<char>>) -> Seq<char>
    decreases lines.len(),
{
    if lines.len() == 0 {
        Seq::empty()
    } else if lines.len() == 1 {
        lines[0]
    } else {
        join_lines(lines.drop_last()) + seq!['\n'] + lines.last()
    }
}

/// A batch as a mathematical value.
pub struct BatchView {
    /// The inputs, in the order given.
    pub inputs: Seq<Seq<char>>,
    /// The directory that every output goes to.
    pub output_dir: Seq<char>,
    /// The options of every compression.
    pub options: CompressOptions,
    /// The results so far, in input order.
    pub results: Seq<ResultView>,
    /// The failures so far, in input order.
    pub failures: Seq<FailureView>,
    /// How many inputs have been taken up.
    pub started: nat,
    /// The compression in progress, if one is.
    pub current: Option<JobView>,
}

impl BatchView {
    /// The batch with the next input taken up, or with nothing in progress
    /// where no input is left.
    pub open spec fn begin_next(self) -> BatchView {
        if self.started < self.inputs.len() {
            BatchView {
                started: self.started + 1,
                current: Some(
                    initial(self.inputs[self.started as int], Some(self.output_dir), self.options),
                ),
                ..self
            }
        } else {
            BatchView { current: None, ..self }
        }
    }

    /// The batch with the outcome of the input `input` recorded.
    pub open spec fn record(self, input: Seq<char>, outcome: Result<ResultView, ErrorView>)
        -> BatchView {
        match outcome {
            Ok(result) => BatchView { results: self.results.push(result), ..self },
            Err(error) => BatchView {
                failures: self.failures.push(FailureView { input_path: input, error }),
                ..self
            },
        }
    }

    /// Whether every input has been dealt with.
    pub open spec fn finished(self) -> bool {
        self.current is None
    }

    /// What the batch asks its host to do: what the compression in progress
    /// asks.
    pub open spec fn pending(self) -> Option<ActionView> {
        match self.current {
            Some(job) => job.pending(),
            None => None,
        }
    }

    /// Whether `event` answers the pending action.
    pub open spec fn accepts(self, event: EventView) -> bool {
        match self.current {
            Some(job) => job.accepts(event),
            None => false,
        }
    }

    /// The batch after `event`. The compression in progress takes the event;
    /// where that ends it, with a result or an error, the outcome is recorded
    /// and the next input is taken up.
    pub open spec fn after(self, event: EventView) -> BatchView {
        match self.current {
            Some(job) => match job.after(event).outcome() {
                Some(outcome) => self.record(job.input, outcome).begin_next(),
                None => BatchView { current: Some(job.after(event)), ..self },
            },
            None => self,
        }
    }

    /// How many inputs have an outcome.
    pub open spec fn done(self) -> nat {
        self.results.len() + self.failures.len()
    }

    /// The batch after each of `events` in turn.
    pub open spec fn after_all(self, events: Seq<EventView>) -> BatchView
        decreases events.len(),
    {
        if events.len() == 0 {
            self
        } else {
            self.after_all(events.drop_last()).after(events.last())
        }
    }

    /// Whether the parts of the batch fit together: every input taken up has
    /// an outcome but the one in progress, which is the last taken up, is
    /// well formed and has not ended; and nothing is in progress only when
    /// no input is left.
    pub open spec fn consistent(self) -> bool {
        &&& self.started <= self.inputs.len()
        &&& match self.current {
            Some(job) => {
                &&& self.done() + 1 == self.started
                &&& job.input == self.inputs[self.started - 1]
                &&& job.well_formed()
                &&& !job.finished()
            },
            None => self.done() == self.started && self.started == self.inputs.len(),
        }
    }
}

/// The batch over `inputs`, before any event: the first input is taken up.
pub open spec fn batch_initial(
    inputs: Seq<Seq<char>>,
    output_dir: Seq<char>,
    options: CompressOptions,
) -> BatchView {
    BatchView {
        inputs,
        output_dir,
        options,
        results: Seq::empty(),
        failures: Seq::empty(),
        started: 0,
        current: None,
    }.begin_next()
}

/// The results among `outcomes`, in order.
pub open spec fn successes(outcomes: Seq<Result<ResultView, ErrorView>>) -> Seq<ResultView>
    decreases outcomes.len(),
{
    if outcomes.len() == 0 {
        Seq::empty()
    } else {
        match outcomes.last() {
            Ok(result) => successes(outcomes.drop_last()).push(result),
            Err(_) => successes(outcomes.drop_last()),
        }
    }
}

/// The failures among `outcomes`, in order, each under the input at its
/// place in `inputs`.
pub open spec fn failures_of(
    inputs: Seq<Seq<char>>,
    outcomes: Seq<Result<ResultView, ErrorView>>,
) -> Seq<FailureView>
    decreases outcomes.len(),
{
    if outcomes.len() == 0 {
        Seq::empty()
    } else {
        match outcomes.last() {
            Ok(_) => failures_of(inputs, outcomes.drop_last()),
            Err(error) => failures_of(inputs, outcomes.drop_last()).push(
                FailureView { input_path: inputs[outcomes.len() - 1], error },
            ),
        }
    }
}

/// Whether `outcome` can be the outcome of compressing `input`: a result
/// names the input's extension, in lower case, as its format.
pub open spec fn outcome_fits(input: Seq<char>, outcome: Result<ResultView, ErrorView>) -> bool {
    outcome matches Ok(result) ==> names_format(input, result.format)
}

/// Whether `outcomes` are the outcomes of the first inputs of `batch`, one
/// for each input that has one and each at the place of its input, and the
/// batch holds exactly their results and their failures.
pub open spec fn explained_by(
    batch: BatchView,
    outcomes: Seq<Result<ResultView, ErrorView>>,
) -> bool {
    &&& outcomes.len() == batch.done()
    &&& outcomes.len() <= batch.inputs.len()
    &&& forall|i: int|
        0 <= i < outcomes.len() ==> outcome_fits(batch.inputs[i], #[trigger] outcomes[i])
    &&& batch.results == successes(outcomes)
    &&& batch.failures == failures_of(batch.inputs, outcomes)
}

/// A new batch fits together and holds no outcome.
pub proof fn lemma_initial_batch(
    inputs: Seq<Seq<char>>,
    output_dir: Seq<char>,
    options: CompressOptions,
)
    ensures
        batch_initial(inputs, output_dir, options).consistent(),
        explained_by(batch_initial(inputs, output_dir, options), Seq::empty()),
        batch_initial(inputs, output_dir, options).finished() <==> inputs.len() == 0,
{
}

/// Every event leaves a batch that fits together, and one that is finished
/// has an outcome for every input.
pub proof fn lemma_step_keeps_consistent(batch: BatchView, event: EventView)
    requires
        batch.consistent(),
    ensures
        batch.after(event).consistent(),
        batch.after(event).finished() ==> batch.after(event).done() == batch.inputs.len(),
        batch.after(event).inputs == batch.inputs,
{
}

/// Results and failures keep the order of the inputs, and each failure is
/// held under the input it belongs to: an event that ends the compression in
/// progress adds its outcome at the end, in the place of its input; any other
/// event adds nothing. A failure ends the item, never the batch.
pub proof fn lemma_step_records(
    batch: BatchView,
    outcomes: Seq<Result<ResultView, ErrorView>>,
    event: EventView,
)
    requires
        batch.consistent(),
        explained_by(batch, outcomes),
    ensures
        match batch.current {
            Some(job) => match job.after(event).outcome() {
                Some(outcome) => {
                    &&& explained_by(batch.after(event), outcomes.push(outcome))
                    &&& batch.after(event).started == if batch.started < batch.inputs.len() {
                        batch.started + 1
                    } else {
                        batch.started
                    }
                },
                None => explained_by(batch.after(event), outcomes),
            },
            None => batch.after(event) == batch,
        },
{
    if let Some(job) = batch.current {
        lemma_step_keeps_well_formed(job, event);
        if let Some(outcome) = job.after(event).outcome() {
            let more = outcomes.push(outcome);
            assert(more.drop_last() =~= outcomes);
            assert(more.last() == outcome);
            assert(outcome_fits(job.input, outcome));
        }
    }
}

/// A batch is in order however long it has run. After any events it fits
/// together, and there are outcomes, one for each input dealt with and each
/// at the place of its input, that its results and failures are made of.
/// Once it is finished there is one for every input. The lemma hands back
/// those outcomes.
pub proof fn lemma_run_is_in_order(
    inputs: Seq<Seq<char>>,
    output_dir: Seq<char>,
    options: CompressOptions,
    events: Seq<EventView>,
) -> (outcomes: Seq<Result<ResultView, ErrorView>>)
    ensures
        batch_initial(inputs, output_dir, options).after_all(events).inputs == inputs,
        batch_initial(inputs, output_dir, options).after_all(events).consistent(),
        explained_by(batch_initial(inputs, output_dir, options).after_all(events), outcomes),
        batch_initial(inputs, output_dir, options).after_all(events).finished()
            ==> outcomes.len() == inputs.len(),
        batch_initial(inputs, output_dir, options).after_all(events).results.len()
            + batch_initial(inputs, output_dir, options).after_all(events).failures.len()
            == outcomes.len(),
    decreases events.len(),
{
    if events.len() == 0 {
        lemma_initial_batch(inputs, output_dir, options);
        Seq::empty()
    } else {
        let earlier = lemma_run_is_in_order(inputs, output_dir, options, events.drop_last());
        let before = batch_initial(inputs, output_dir, options).after_all(events.drop_last());
        lemma_step_keeps_consistent(before, events.last());
        lemma_step_records(before, earlier, events.last());
        match before.current {
            Some(job) => match job.after(events.last()).outcome() {
                Some(outcome) => earlier.push(outcome),
                None => earlier,
            },
            None => earlier,
        }
    }
}

/// Every result and every failure is one input's outcome: together they are
/// as many as the outcomes.
pub proof fn lemma_outcomes_are_split(
    inputs: Seq<Seq<char>>,
    outcomes: Seq<Result<ResultView, ErrorView>>,
)
    ensures
        successes(outcomes).len() + failures_of(inputs, outcomes).len() == outcomes.len(),
    decreases outcomes.len(),
{
    if outcomes.len() > 0 {
        lemma_outcomes_are_split(inputs, outcomes.drop_last());
    }
}

/// Many compressions in progress. `BatchView` is its mathematical value.
pub struct BatchJob {
    inputs: Vec<String>,
    output_dir: String,
    options: CompressOptions,
    results: Vec<CompressResult>,
    failures: Vec<BatchFailure>,
    started: usize,
    current: Option<CompressJob>,
}

/// The view of the compression in progress.
pub open spec fn job_view(job: Option<CompressJob>) -> Option<JobView> {
    match job {
        Some(job) => Some(job@),
        None => None,
    }
}

impl View for BatchJob {
    type V = BatchView;

    closed spec fn view(&self) -> BatchView {
        BatchView {
            inputs: views(self.inputs@),
            output_dir: self.output_dir@,
            options: self.options,
            results: result_views(self.results@),
            failures: failure_views(self.failures@),
            started: self.started as nat,
            current: job_view(self.current),
        }
    }
}

/// What a batch produced: the results of the inputs that were compressed and
/// the failures of those that were not, each list in input order.
#[derive(Debug)]
pub struct BatchOutcome {
    pub results: Vec<CompressResult>,
    pub failures: Vec<BatchFailure>,
}

/// Begins the compression of `input_paths`, in the order given, into the
/// directory `output_dir`. The batch that comes back has taken up the first
/// input. Its host answers each `action` with an event passed to `step`,
/// until `action` has nothing left to ask.
pub fn batch_compress(
    input_paths: Vec<String>,
    output_dir: String,
    options: CompressOptions,
) -> (batch: BatchJob)
    ensures
        batch@ == batch_initial(views(input_paths@), output_dir@, options),
        batch@.consistent(),
{
    let batch = BatchJob {
        inputs: input_paths,
        output_dir,
        options,
        results: Vec::new(),
        failures: Vec::new(),
        started: 0,
        current: None,
    };
    assert(batch@.results =~= Seq::empty());
    assert(batch@.failures =~= Seq::empty());
    batch.begin_next()
}

impl BatchFailure {
    /// The line that reports this failure.
    pub fn message(&self) -> (r: String)
        ensures
            r@ == failure_message(self@),
    {
        let mut r: String = String::from_str("压缩文件 ");
        append_quoted(&mut r, self.input_path.as_str());
        r.append(" 失败: ");
        let cause: String = self.error.message();
        r.append(cause.as_str());
        r
    }
}

impl BatchJob {
    /// Takes up the next input, if one is left.
    fn begin_next(self) -> (next: BatchJob)
        ensures
            next@ == self@.begin_next(),
    {
        let BatchJob { inputs, output_dir, options, results, failures, started, current } = self;
        if started < inputs.len() {
            let job: CompressJob = compress_image(
                inputs[started].as_str(),
                Some(output_dir.clone()),
                options,
            );
            BatchJob {
                inputs,
                output_dir,
                options,
                results,
                failures,
                started: started + 1,
                current: Some(job),
            }
        } else {
            BatchJob { inputs, output_dir, options, results, failures, started, current: None }
        }
    }

    /// Whether every input has been dealt with.
    pub fn is_finished(&self) -> (r: bool)
        ensures
            r == self@.finished(),
    {
        self.current.is_none()
    }

    /// What the host must do next; nothing once every input has been dealt
    /// with.
    pub fn action(&self) -> (r: Option<Action>)
        ensures
            match r {
                Some(action) => self@.pending() == Some(action@),
                None => self@.pending() is None,
            },
    {
        match &self.current {
            Some(job) => job.action(),
            None => None,
        }
    }

    /// The input whose compression is in progress.
    pub fn current_input(&self) -> (r: Option<&str>)
        ensures
            match r {
                Some(path) => self@.current matches Some(job) && path@ == job.input,
                None => self@.current is None,
            },
    {
        match &self.current {
            Some(job) => Some(job.input_path()),
            None => None,
        }
    }

    /// Whether `event` answers the pending action.
    pub fn accepts(&self, event: &Event) -> (r: bool)
        ensures
            r == self@.accepts(event@),
    {
        match &self.current {
            Some(job) => job.accepts(event),
            None => false,
        }
    }

    /// Takes in what the host saw. The compression in progress takes the
    /// event; where that ends it, its result or its failure is recorded and
    /// the next input is taken up.
    pub fn step(self, event: Event) -> (next: BatchJob)
        ensures
            next@ == self@.after(event@),
            self@.consistent() ==> next@.consistent(),
    {
        let BatchJob { inputs, output_dir, options, results, failures, started, current } = self;
        let job: CompressJob = match current {
            Some(job) => job,
            None => {
                return BatchJob {
                    inputs,
                    output_dir,
                    options,
                    results,
                    failures,
                    started,
                    current: None,
                };
            },
        };
        let ghost before = job@;
        let job: CompressJob = job.step(event);
        if !job.is_finished() {
            return BatchJob {
                inputs,
                output_dir,
                options,
                results,
                failures,
                started,
                current: Some(job),
            };
        }
        let input_path: String = String::from_str(job.input_path());
        let mut results = results;
        let mut failures = failures;
        match job.into_outcome() {
            Some(Ok(result)) => {
                assert(result_views(results@.push(result)) =~= result_views(results@).push(
                    result@,
                ));
                results.push(result);
            },
            Some(Err(error)) => {
                let failure = BatchFailure { input_path, error };
                assert(failure_views(failures@.push(failure)) =~= failure_views(failures@).push(
                    failure@,
                ));
                failures.push(failure);
            },
            None => {},
        }
        let recorded = BatchJob {
            inputs,
            output_dir,
            options,
            results,
            failures,
            started,
            current: None,
        };
        recorded.begin_next()
    }

    /// The results and failures so far: those of every input, once the batch
    /// is finished.
    pub fn into_outcome(self) -> (r: BatchOutcome)
        ensures
            result_views(r.results@) == self@.results,
            failure_views(r.failures@) == self@.failures,
    {
        BatchOutcome { results: self.results, failures: self.failures }
    }
}

impl BatchOutcome {
    /// The lines that report the failures, in input order.
    pub fn error_messages(&self) -> (r: Vec<String>)
        ensures
            views(r@) == failure_messages(failure_views(self.failures@)),
    {
        let mut r: Vec<String> = Vec::new();
        let mut i: usize = 0;
        while i < self.failures.len()
            invariant
                i <= self.failures.len(),
                views(r@) == failure_messages(failure_views(self.failures@.take(i as int))),
            decreases self.failures.len() - i,
        {
            let line: String = self.failures[i].message();
            proof {
                crate::text::lemma_views_push(r@, line);
                assert(failure_messages(failure_views(self.failures@.take(i as int + 1)))
                    =~= failure_messages(failure_views(self.failures@.take(i as int))).push(
                    line@,
                ));
            }
            r.push(line);
            i = i + 1;
        }
        assert(self.failures@.take(i as int) =~= self.failures@);
        r
    }

    /// The batch as all or nothing: the results where no input failed, and
    /// otherwise the lines that report the failures, joined by line feeds.
    pub fn into_result(self) -> (r: Result<Vec<CompressResult>, String>)
        ensures
            match r {
                Ok(results) => self.failures@.len() == 0 && results == self.results,
                Err(text) => self.failures@.len() > 0 && text@ == join_lines(
                    failure_messages(failure_views(self.failures@)),
                ),
            },
    {
        if self.failures.len() == 0 {
            return Ok(self.results);
        }
        let lines: Vec<String> = self.error_messages();
        Err(join_with_line_feeds(&lines))
    }
}

/// `lines` as one text, with a line feed between any two of them.
pub fn join_with_line_feeds(lines: &Vec<String>) -> (r: String)
    ensures
        r@ == join_lines(views(lines@)),
{
    let mut r: String = String::new();
    let mut i: usize = 0;
    while i < lines.len()
        invariant
            i <= lines.len(),
            r@ == join_lines(views(lines@).take(i as int)),
        decreases lines.len() - i,
    {
        let ghost before = views(lines@).take(i as int);
        let ghost now = views(lines@).take(i as int + 1);
        assert(now.drop_last() =~= before);
        assert(now.last() == lines@[i as int]@);
        if i > 0 {
            r.append("\n");
        }
        r.append(lines[i].as_str());
        assert(r@ =~= join_lines(now)) by {
            reveal_strlit("\n");
            assert("\n"@ =~= seq!['\n']);
            if i == 0 {
                assert(join_lines(before) =~= Seq::<char>::empty());
                assert(now.len() == 1);
            } else {
                assert(now.len() >= 2);
            }
        }
        i = i + 1;
    }
    assert(views(lines@).take(i as int) =~= views(lines@));
    r
}

} // verus!
