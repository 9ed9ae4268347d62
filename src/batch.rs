//! The batch orchestrator: items run one after the other, each announced,
//! estimated, and closed by one terminal progress event and one terminal
//! partial result; a summary ends the job.
use vstd::prelude::*;
use crate::error::ValidationError;
use crate::text::opt_view;
use crate::progress::{span_of, ProgressEstimator};

verus! {

/// A progress event of a job.
#[derive(Debug, Clone)]
pub struct ProgressPayload {
    pub job_id: String,
    /// Units of the whole job.
    pub total: usize,
    /// Units done so far, the current item's estimate included.
    pub current: usize,
    pub path: String,
    pub status: String,
    pub size_bytes: u64,
}

/// The start or the outcome of one item of a batch.
#[derive(Debug, Clone)]
pub struct PartialResultPayload {
    pub job_id: String,
    pub input: String,
    pub output: Option<String>,
    pub error: Option<String>,
    pub status: String,
}

/// The outcome of one item of a batch: an output path on success, a message
/// on failure.
#[derive(Debug, Clone)]
pub struct BatchItemResult {
    pub input: String,
    pub output: Option<String>,
    pub error: Option<String>,
}

/// The last event of a batch job: every outcome, in input order.
#[derive(Debug, Clone)]
pub struct BatchSummary {
    pub job_id: String,
    pub results: Vec<BatchItemResult>,
}

/// The outcome of a single-file conversion.
#[derive(Debug, Clone)]
pub struct ConversionResult {
    pub input: String,
    pub output: String,
}

pub struct ProgressView {
    pub job_id: Seq<char>,
    pub total: nat,
    pub current: nat,
    pub path: Seq<char>,
    pub status: Seq<char>,
    pub size_bytes: nat,
}

pub struct PartialView {
    pub job_id: Seq<char>,
    pub input: Seq<char>,
    pub output: Option<Seq<char>>,
    pub error: Option<Seq<char>>,
    pub status: Seq<char>,
}

pub struct ItemView {
    pub input: Seq<char>,
    pub output: Option<Seq<char>>,
    pub error: Option<Seq<char>>,
}

/// An event of a job, as a value.
pub enum EventView {
    Progress(ProgressView),
    Partial(PartialView),
    Summary(Seq<char>, Seq<ItemView>),
}

impl View for ProgressPayload {
    type V = ProgressView;

    open spec fn view(&self) -> ProgressView {
        ProgressView {
            job_id: self.job_id@,
            total: self.total as nat,
            current: self.current as nat,
            path: self.path@,
            status: self.status@,
            size_bytes: self.size_bytes as nat,
        }
    }
}

impl View for PartialResultPayload {
    type V = PartialView;

    open spec fn view(&self) -> PartialView {
        PartialView {
            job_id: self.job_id@,
            input: self.input@,
            output: opt_view(self.output),
            error: opt_view(self.error),
            status: self.status@,
        }
    }
}

impl View for BatchItemResult {
    type V = ItemView;

    open spec fn view(&self) -> ItemView {
        ItemView { input: self.input@, output: opt_view(self.output), error: opt_view(self.error) }
    }
}

pub open spec fn item_views(r: Seq<BatchItemResult>) -> Seq<ItemView> {
    r.map_values(|x: BatchItemResult| x@)
}

pub open spec fn path_views(p: Seq<String>) -> Seq<Seq<char>> {
    p.map_values(|x: String| x@)
}

/// Units of the first `k` items: each item counts its size, at least 1.
pub open spec fn units(sizes: Seq<u64>, k: int) -> nat
    decreases k,
{
    if k <= 0 {
        0
    } else {
        units(sizes, k - 1) + span_of(sizes[k - 1] as nat)
    }
}

/// The item record for a conversion outcome.
pub open spec fn item_of(path: Seq<char>, outcome: Result<Seq<char>, Seq<char>>) -> ItemView {
    match outcome {
        Ok(out) => ItemView { input: path, output: Some(out), error: None },
        Err(e) => ItemView { input: path, output: None, error: Some(e) },
    }
}

pub open spec fn outcome_view(o: Result<String, String>) -> Result<Seq<char>, Seq<char>> {
    match o {
        Ok(s) => Ok(s@),
        Err(e) => Err(e@),
    }
}

/// The status tag of a finished item.
pub open spec fn outcome_status(item: ItemView) -> Seq<char> {
    if item.error is None {
        "success"@
    } else {
        "error"@
    }
}

/// The two events that open an item: progress at its base, then `started`.
pub open spec fn start_events(job: Seq<char>, path: Seq<char>, size: nat, base: nat, total: nat) -> Seq<EventView> {
    seq![
        EventView::Progress(ProgressView { job_id: job, total, current: base, path, status: "processing"@, size_bytes: size }),
        EventView::Partial(PartialView { job_id: job, input: path, output: None, error: None, status: "started"@ }),
    ]
}

/// The two events that close an item: progress at the end of its span, then
/// the terminal partial result.
pub open spec fn terminal_events(job: Seq<char>, size: nat, base: nat, total: nat, item: ItemView) -> Seq<EventView> {
    seq![
        EventView::Progress(ProgressView {
            job_id: job,
            total,
            current: base + span_of(size),
            path: item.input,
            status: outcome_status(item),
            size_bytes: size,
        }),
        EventView::Partial(PartialView {
            job_id: job,
            input: item.input,
            output: item.output,
            error: item.error,
            status: outcome_status(item),
        }),
    ]
}

/// The orchestrator's events for the first `k` items.
pub open spec fn events_upto(
    job: Seq<char>,
    paths: Seq<Seq<char>>,
    sizes: Seq<u64>,
    items: Seq<ItemView>,
    total: nat,
    k: int,
) -> Seq<EventView>
    decreases k,
{
    if k <= 0 {
        Seq::empty()
    } else {
        events_upto(job, paths, sizes, items, total, k - 1) + start_events(
            job,
            paths[k - 1],
            sizes[k - 1] as nat,
            units(sizes, k - 1),
            total,
        ) + terminal_events(job, sizes[k - 1] as nat, units(sizes, k - 1), total, items[k - 1])
    }
}

/// Every event of a whole job, estimator ticks aside, ending with the summary.
pub open spec fn job_events(job: Seq<char>, paths: Seq<Seq<char>>, sizes: Seq<u64>, items: Seq<ItemView>) -> Seq<EventView> {
    events_upto(job, paths, sizes, items, units(sizes, sizes.len() as int), paths.len() as int).push(
        EventView::Summary(job, items),
    )
}

/// The id of a single-file job: the given one, else `single-{timestamp}`.
pub fn single_job_id(job_id: Option<String>, timestamp: &str) -> (r: String)
    ensures
        r@ == match job_id {
            Some(j) => j@,
            None => "single-"@ + timestamp@,
        },
{
    match job_id {
        Some(j) => j,
        None => {
            let mut out = String::from_str("single-");
            out.append(timestamp);
            out
        },
    }
}


/// Units never shrink as items are added.
pub proof fn lemma_units_monotone(sizes: Seq<u64>, i: int, j: int)
    requires
        0 <= i <= j,
    ensures
        units(sizes, i) <= units(sizes, j),
    decreases j - i,
{
    if i < j {
        lemma_units_monotone(sizes, i, j - 1);
    }
}

/// Whether the whole job's units fit the machine's counters.
pub fn units_fit(sizes: &Vec<u64>) -> (r: bool)
    ensures
        r == (units(sizes@, sizes@.len() as int) <= usize::MAX),
{
    let n = sizes.len();
    let mut acc: u128 = 0;
    let mut i: usize = 0;
    while i < n
        invariant
            n == sizes@.len(),
            i <= n,
            acc == units(sizes@, i as int),
            acc <= usize::MAX,
        decreases n - i,
    {
        let s = sizes[i];
        let span: u128 = if s == 0 { 1 } else { s as u128 };
        acc = acc + span;
        i += 1;
        if acc > usize::MAX as u128 {
            proof {
                lemma_units_monotone(sizes@, i as int, n as int);
            }
            return false;
        }
    }
    true
}

/// One batch job in progress.
pub struct BatchJob {
    pub job_id: String,
    pub paths: Vec<String>,
    pub sizes: Vec<u64>,
    pub total: usize,
    /// Units of the items finished so far.
    pub done: usize,
    pub results: Vec<BatchItemResult>,
    /// Whether the item after the finished ones was started.
    pub in_flight: bool,
    /// Every event handed out so far.
    pub log: Ghost<Seq<EventView>>,
}

impl BatchJob {
    pub open spec fn wf(&self) -> bool {
        let n = self.paths@.len();
        let k = self.results@.len();
        &&& n == self.sizes@.len()
        &&& n > 0
        &&& self.total == units(self.sizes@, n as int)
        &&& k <= n
        &&& self.in_flight ==> k < n
        &&& self.done == units(self.sizes@, k as int)
        &&& forall|i: int| 0 <= i < k ==> #[trigger] self.results@[i]@.input == self.paths@[i]@
        &&& forall|i: int| 0 <= i < k ==> (#[trigger] self.results@[i].output is Some) != (
        self.results@[i].error is Some)
        &&& self.log@ == events_upto(
            self.job_id@,
            path_views(self.paths@),
            self.sizes@,
            item_views(self.results@),
            self.total as nat,
            k as int,
        ) + if self.in_flight {
            start_events(
                self.job_id@,
                self.paths@[k as int]@,
                self.sizes@[k as int] as nat,
                self.done as nat,
                self.total as nat,
            )
        } else {
            Seq::empty()
        }
    }

    /// Index of the next item to start or to finish.
    pub open spec fn next_index(&self) -> int {
        self.results@.len() as int
    }

    /// A job over `paths`, whose sizes in bytes are `sizes` (0 when unknown).
    /// An empty list is refused.
    pub fn new(job_id: String, paths: Vec<String>, sizes: Vec<u64>) -> (r: Result<BatchJob, ValidationError>)
        requires
            paths@.len() == sizes@.len(),
            units(sizes@, sizes@.len() as int) <= usize::MAX,
        ensures
            paths@.len() == 0 ==> r == Err::<BatchJob, ValidationError>(ValidationError::EmptyBatch),
            paths@.len() > 0 ==> (r matches Ok(j) && j.wf() && j.job_id == job_id && j.paths@ == paths@
                && j.sizes@ == sizes@ && j.results@.len() == 0 && !j.in_flight && j.done == 0
                && j.log@.len() == 0),
    {
        let n = paths.len();
        if n == 0 {
            return Err(ValidationError::EmptyBatch);
        }
        let mut total: usize = 0;
        let mut i: usize = 0;
        while i < n
            invariant
                n == sizes@.len(),
                i <= n,
                total == units(sizes@, i as int),
                units(sizes@, n as int) <= usize::MAX,
            decreases n - i,
        {
            proof {
                lemma_units_monotone(sizes@, i + 1, n as int);
            }
            let s = sizes[i];
            let span: usize = if s == 0 { 1 } else { s as usize };
            total = total + span;
            i += 1;
        }
        let job = BatchJob {
            job_id,
            paths,
            sizes,
            total,
            done: 0,
            results: Vec::new(),
            in_flight: false,
            log: Ghost(Seq::empty()),
        };
        assert(job.log@ =~= events_upto(
            job.job_id@,
            path_views(job.paths@),
            job.sizes@,
            item_views(job.results@),
            job.total as nat,
            0,
        ) + Seq::empty());
        Ok(job)
    }

    /// Opens the next item: its progress event at the job's units done so
    /// far, and its `started` partial result.
    pub fn start_item(&mut self) -> (r: (ProgressPayload, PartialResultPayload))
        requires
            old(self).wf(),
            !old(self).in_flight,
            old(self).next_index() < old(self).paths@.len(),
        ensures
            final(self).wf(),
            final(self).in_flight,
            final(self).job_id == old(self).job_id,
            final(self).paths == old(self).paths,
            final(self).sizes == old(self).sizes,
            final(self).results == old(self).results,
            final(self).done == old(self).done,
            seq![EventView::Progress(r.0@), EventView::Partial(r.1@)] == start_events(
                old(self).job_id@,
                old(self).paths@[old(self).next_index()]@,
                old(self).sizes@[old(self).next_index()] as nat,
                old(self).done as nat,
                old(self).total as nat,
            ),
            final(self).log@ == old(self).log@ + seq![EventView::Progress(r.0@), EventView::Partial(r.1@)],
    {
        let k = self.results.len();
        let path = self.paths[k].clone();
        let size = self.sizes[k];
        let p = ProgressPayload {
            job_id: self.job_id.clone(),
            total: self.total,
            current: self.done,
            path: path.clone(),
            status: String::from_str("processing"),
            size_bytes: size,
        };
        let q = PartialResultPayload {
            job_id: self.job_id.clone(),
            input: path,
            output: None,
            error: None,
            status: String::from_str("started"),
        };
        let ghost events = seq![EventView::Progress(p@), EventView::Partial(q@)];
        assert(events =~= start_events(self.job_id@, self.paths@[k as int]@, size as nat, self.done as nat, self.total as nat));
        self.in_flight = true;
        self.log = Ghost(self.log@ + events);
        assert(self.log@ =~= events_upto(
            self.job_id@,
            path_views(self.paths@),
            self.sizes@,
            item_views(self.results@),
            self.total as nat,
            k as int,
        ) + events);
        (p, q)
    }

    /// The estimator for the item in flight: it covers the item's span from
    /// the units done so far.
    pub fn estimator(&self) -> (r: ProgressEstimator)
        requires
            self.wf(),
            self.in_flight,
        ensures
            r.wf(),
            !r.stopped,
            r.percent == 1,
            r.base == self.done,
            r.span == span_of(self.sizes@[self.next_index()] as nat),
    {
        let k = self.results.len();
        proof {
            lemma_units_monotone(self.sizes@, k + 1, self.paths@.len() as int);
        }
        let s = self.sizes[k];
        let span: usize = if s == 0 { 1 } else { s as usize };
        ProgressEstimator::new(self.done, span)
    }

    /// Closes the item in flight with the conversion's outcome: its progress
    /// event at the end of its span, its terminal partial result, and its
    /// record.
    pub fn finish_item(&mut self, outcome: Result<String, String>) -> (r: (ProgressPayload, PartialResultPayload))
        requires
            old(self).wf(),
            old(self).in_flight,
        ensures
            final(self).wf(),
            !final(self).in_flight,
            final(self).job_id == old(self).job_id,
            final(self).paths == old(self).paths,
            final(self).sizes == old(self).sizes,
            final(self).results@.len() == old(self).results@.len() + 1,
            final(self).results@.subrange(0, old(self).next_index()) == old(self).results@,
            final(self).results@[old(self).next_index()]@ == item_of(
                old(self).paths@[old(self).next_index()]@,
                outcome_view(outcome),
            ),
            final(self).done == units(old(self).sizes@, old(self).next_index() + 1),
            final(self).done == old(self).done + span_of(old(self).sizes@[old(self).next_index()] as nat),
            seq![EventView::Progress(r.0@), EventView::Partial(r.1@)] == terminal_events(
                old(self).job_id@,
                old(self).sizes@[old(self).next_index()] as nat,
                old(self).done as nat,
                old(self).total as nat,
                item_of(old(self).paths@[old(self).next_index()]@, outcome_view(outcome)),
            ),
            final(self).log@ == old(self).log@ + seq![EventView::Progress(r.0@), EventView::Partial(r.1@)],
    {
        let k = self.results.len();
        proof {
            lemma_units_monotone(self.sizes@, k + 1, self.paths@.len() as int);
        }
        let s = self.sizes[k];
        let span: usize = if s == 0 { 1 } else { s as usize };
        let path = self.paths[k].clone();
        let ghost old_log = self.log@;
        let ghost old_results = self.results@;
        let (item, q) = match outcome {
            Ok(out) => {
                let out2 = out.clone();
                (
                    BatchItemResult { input: path.clone(), output: Some(out), error: None },
                    PartialResultPayload {
                        job_id: self.job_id.clone(),
                        input: path.clone(),
                        output: Some(out2),
                        error: None,
                        status: String::from_str("success"),
                    },
                )
            },
            Err(e) => {
                let e2 = e.clone();
                (
                    BatchItemResult { input: path.clone(), output: None, error: Some(e) },
                    PartialResultPayload {
                        job_id: self.job_id.clone(),
                        input: path.clone(),
                        output: None,
                        error: Some(e2),
                        status: String::from_str("error"),
                    },
                )
            },
        };
        let p = ProgressPayload {
            job_id: self.job_id.clone(),
            total: self.total,
            current: self.done + span,
            path,
            status: q.status.clone(),
            size_bytes: s,
        };
        let ghost events = seq![EventView::Progress(p@), EventView::Partial(q@)];
        assert(events =~= terminal_events(self.job_id@, s as nat, self.done as nat, self.total as nat, item@));
        self.results.push(item);
        self.done = self.done + span;
        self.in_flight = false;
        self.log = Ghost(old_log + events);
        proof {
            assert(self.results@.subrange(0, k as int) =~= old_results);
            let items = item_views(self.results@);
            assert(items.subrange(0, k as int) =~= item_views(old_results));
            lemma_events_upto_prefix(
                self.job_id@,
                path_views(self.paths@),
                self.sizes@,
                item_views(old_results),
                items,
                self.total as nat,
                k as int,
            );
            assert(self.log@ =~= events_upto(
                self.job_id@,
                path_views(self.paths@),
                self.sizes@,
                items,
                self.total as nat,
                (k + 1) as int,
            ));
        }
        (p, q)
    }

    /// Ends the job once every item is finished: the summary of all outcomes,
    /// in input order. Taking the job by value, it can come only once.
    pub fn finish(self) -> (r: BatchSummary)
        requires
            self.wf(),
            !self.in_flight,
            self.next_index() == self.paths@.len(),
        ensures
            r.job_id == self.job_id,
            r.results@ == self.results@,
            self.log@.push(EventView::Summary(r.job_id@, item_views(r.results@))) == job_events(
                self.job_id@,
                path_views(self.paths@),
                self.sizes@,
                item_views(self.results@),
            ),
    {
        let r = BatchSummary { job_id: self.job_id, results: self.results };
        proof {
            assert(self.log@ =~= self.log@ + Seq::<EventView>::empty());
        }
        r
    }
}

/// `events_upto` for `k` items reads only the first `k` item records.
proof fn lemma_events_upto_prefix(
    job: Seq<char>,
    paths: Seq<Seq<char>>,
    sizes: Seq<u64>,
    a: Seq<ItemView>,
    b: Seq<ItemView>,
    total: nat,
    k: int,
)
    requires
        0 <= k <= a.len(),
        k <= b.len(),
        forall|i: int| 0 <= i < k ==> a[i] == b[i],
    ensures
        events_upto(job, paths, sizes, a, total, k) == events_upto(job, paths, sizes, b, total, k),
    decreases k,
{
    if k > 0 {
        lemma_events_upto_prefix(job, paths, sizes, a, b, total, k - 1);
    }
}


/// Whether an event is an item's terminal partial result.
pub open spec fn is_terminal_partial(e: EventView) -> bool {
    match e {
        EventView::Partial(p) => p.status != "started"@,
        _ => false,
    }
}

/// Whether an event is the job summary.
pub open spec fn is_summary(e: EventView) -> bool {
    e is Summary
}

/// Whether an event is a progress event.
pub open spec fn is_progress(e: EventView) -> bool {
    e is Progress
}

/// The progress value of a progress event.
pub open spec fn current_of(e: EventView) -> nat {
    match e {
        EventView::Progress(p) => p.current,
        _ => 0,
    }
}

/// How many events of `s` satisfy `f`.
pub open spec fn count_where(s: Seq<EventView>, f: spec_fn(EventView) -> bool) -> nat
    decreases s.len(),
{
    if s.len() == 0 {
        0
    } else {
        count_where(s.drop_last(), f) + if f(s.last()) {
            1nat
        } else {
            0nat
        }
    }
}

/// Whether the progress events of `s` never go back.
pub open spec fn progress_sorted(s: Seq<EventView>) -> bool {
    forall|a: int, b: int|
        0 <= a < b < s.len() && is_progress(#[trigger] s[a]) && is_progress(#[trigger] s[b]) ==> current_of(
            s[a],
        ) <= current_of(s[b])
}

/// Whether every progress event of `s` is at most `m`.
pub open spec fn progress_bounded(s: Seq<EventView>, m: nat) -> bool {
    forall|a: int| 0 <= a < s.len() && is_progress(#[trigger] s[a]) ==> current_of(s[a]) <= m
}

proof fn lemma_count_concat(a: Seq<EventView>, b: Seq<EventView>, f: spec_fn(EventView) -> bool)
    ensures
        count_where(a + b, f) == count_where(a, f) + count_where(b, f),
    decreases b.len(),
{
    if b.len() == 0 {
        assert(a + b =~= a);
    } else {
        lemma_count_concat(a, b.drop_last(), f);
        assert((a + b).drop_last() =~= a + b.drop_last());
    }
}

proof fn lemma_count_pair(x: EventView, y: EventView, f: spec_fn(EventView) -> bool)
    ensures
        count_where(seq![x, y], f) == (if f(x) { 1nat } else { 0nat }) + (if f(y) { 1nat } else { 0nat }),
{
    assert(seq![x, y].drop_last() =~= seq![x]);
    assert(seq![x].drop_last() =~= Seq::<EventView>::empty());
    assert(count_where(Seq::<EventView>::empty(), f) == 0);
    assert(seq![x].last() == x);
    assert(seq![x, y].last() == y);
    assert(count_where(seq![x], f) == (if f(x) { 1nat } else { 0nat }));
}

proof fn lemma_count_zero(s: Seq<EventView>, f: spec_fn(EventView) -> bool)
    requires
        count_where(s, f) == 0,
    ensures
        forall|i: int| 0 <= i < s.len() ==> !f(#[trigger] s[i]),
    decreases s.len(),
{
    if s.len() > 0 {
        lemma_count_zero(s.drop_last(), f);
        assert forall|i: int| 0 <= i < s.len() implies !f(#[trigger] s[i]) by {
            if i < s.len() - 1 {
                assert(s[i] == s.drop_last()[i]);
            }
        }
    }
}

proof fn lemma_status_tags_differ()
    ensures
        "success"@ != "started"@,
        "error"@ != "started"@,
{
    reveal_strlit("success");
    reveal_strlit("started");
    reveal_strlit("error");
    assert("success"@[2] != "started"@[2]);
    assert("error"@.len() != "started"@.len());
}

proof fn lemma_upto_counts(
    job: Seq<char>,
    paths: Seq<Seq<char>>,
    sizes: Seq<u64>,
    items: Seq<ItemView>,
    total: nat,
    k: int,
)
    requires
        0 <= k,
    ensures
        count_where(events_upto(job, paths, sizes, items, total, k), |e: EventView| is_terminal_partial(e)) == k,
        count_where(events_upto(job, paths, sizes, items, total, k), |e: EventView| is_summary(e)) == 0,
    decreases k,
{
    if k > 0 {
        let t = |e: EventView| is_terminal_partial(e);
        let u = |e: EventView| is_summary(e);
        let prev = events_upto(job, paths, sizes, items, total, k - 1);
        let st = start_events(job, paths[k - 1], sizes[k - 1] as nat, units(sizes, k - 1), total);
        let te = terminal_events(job, sizes[k - 1] as nat, units(sizes, k - 1), total, items[k - 1]);
        lemma_upto_counts(job, paths, sizes, items, total, k - 1);
        lemma_status_tags_differ();
        lemma_count_concat(prev + st, te, t);
        lemma_count_concat(prev, st, t);
        lemma_count_concat(prev + st, te, u);
        lemma_count_concat(prev, st, u);
        lemma_count_pair(st[0], st[1], t);
        lemma_count_pair(te[0], te[1], t);
        lemma_count_pair(st[0], st[1], u);
        lemma_count_pair(te[0], te[1], u);
        assert(st =~= seq![st[0], st[1]]);
        assert(te =~= seq![te[0], te[1]]);
    }
}

/// A job over a non-empty item list hands out exactly one terminal partial
/// result per item and exactly one summary, and the summary comes last, after
/// every terminal event.
pub proof fn lemma_job_event_counts(
    job: Seq<char>,
    paths: Seq<Seq<char>>,
    sizes: Seq<u64>,
    items: Seq<ItemView>,
)
    requires
        paths.len() == sizes.len(),
        paths.len() == items.len(),
        paths.len() > 0,
    ensures
        count_where(job_events(job, paths, sizes, items), |e: EventView| is_terminal_partial(e))
            == paths.len(),
        count_where(job_events(job, paths, sizes, items), |e: EventView| is_summary(e)) == 1,
        is_summary(job_events(job, paths, sizes, items).last()),
        forall|i: int|
            0 <= i < job_events(job, paths, sizes, items).len() - 1 ==> !is_summary(
                #[trigger] job_events(job, paths, sizes, items)[i],
            ),
{
    let total = units(sizes, sizes.len() as int);
    let body = events_upto(job, paths, sizes, items, total, paths.len() as int);
    let all = job_events(job, paths, sizes, items);
    lemma_upto_counts(job, paths, sizes, items, total, paths.len() as int);
    assert(all.drop_last() =~= body);
    lemma_count_zero(body, |e: EventView| is_summary(e));
    assert forall|i: int| 0 <= i < all.len() - 1 implies !is_summary(#[trigger] all[i]) by {
        assert(all[i] == body[i]);
    }
}

proof fn lemma_upto_progress(
    job: Seq<char>,
    paths: Seq<Seq<char>>,
    sizes: Seq<u64>,
    items: Seq<ItemView>,
    total: nat,
    k: int,
)
    requires
        0 <= k <= items.len(),
    ensures
        progress_sorted(events_upto(job, paths, sizes, items, total, k)),
        progress_bounded(events_upto(job, paths, sizes, items, total, k), units(sizes, k)),
        k > 0 ==> {
            let e = events_upto(job, paths, sizes, items, total, k);
            &&& e.len() >= 2
            &&& is_progress(e[e.len() - 2])
            &&& current_of(e[e.len() - 2]) == units(sizes, k)
        },
    decreases k,
{
    if k > 0 {
        lemma_upto_progress(job, paths, sizes, items, total, k - 1);
        let prev = events_upto(job, paths, sizes, items, total, k - 1);
        let base = units(sizes, k - 1);
        let st = start_events(job, paths[k - 1], sizes[k - 1] as nat, base, total);
        let te = terminal_events(job, sizes[k - 1] as nat, base, total, items[k - 1]);
        let e = events_upto(job, paths, sizes, items, total, k);
        let m = prev.len() as int;
        assert(e =~= prev + seq![st[0], st[1], te[0], te[1]]);
        assert(e[m] == st[0]);
        assert(e[m + 1] == st[1]);
        assert(e[m + 2] == te[0]);
        assert(e[m + 3] == te[1]);
        assert forall|a: int| 0 <= a < e.len() && is_progress(#[trigger] e[a]) implies current_of(e[a]) <= units(
            sizes,
            k,
        ) by {
            if a < m {
                assert(e[a] == prev[a]);
            }
        }
        assert forall|a: int, b: int|
            0 <= a < b < e.len() && is_progress(#[trigger] e[a]) && is_progress(#[trigger] e[b]) implies current_of(
            e[a],
        ) <= current_of(e[b]) by {
            if b < m {
                assert(e[a] == prev[a]);
                assert(e[b] == prev[b]);
            } else if a < m {
                assert(e[a] == prev[a]);
            }
        }
    }
}

/// The cumulative progress of a job never goes back: across the whole job
/// the orchestrator's progress events are non-decreasing, none exceeds the
/// job's total, and the last one reports the total, the sum over all items of
/// their sizes, each at least 1.
pub proof fn lemma_job_progress_nondecreasing(
    job: Seq<char>,
    paths: Seq<Seq<char>>,
    sizes: Seq<u64>,
    items: Seq<ItemView>,
)
    requires
        paths.len() == sizes.len(),
        paths.len() == items.len(),
        paths.len() > 0,
    ensures
        progress_sorted(job_events(job, paths, sizes, items)),
        progress_bounded(job_events(job, paths, sizes, items), units(sizes, sizes.len() as int)),
        ({
            let e = job_events(job, paths, sizes, items);
            &&& e.len() >= 3
            &&& is_progress(e[e.len() - 3])
            &&& current_of(e[e.len() - 3]) == units(sizes, sizes.len() as int)
        }),
{
    let total = units(sizes, sizes.len() as int);
    let body = events_upto(job, paths, sizes, items, total, paths.len() as int);
    let all = job_events(job, paths, sizes, items);
    lemma_upto_progress(job, paths, sizes, items, total, paths.len() as int);
    assert forall|a: int| 0 <= a < all.len() - 1 implies all[a] == body[a] by {}
    assert(!is_progress(all[all.len() - 1]));
    assert forall|a: int| 0 <= a < all.len() && is_progress(#[trigger] all[a]) implies current_of(all[a]) <= total by {
        assert(all[a] == body[a]);
    }
    assert forall|a: int, b: int|
        0 <= a < b < all.len() && is_progress(#[trigger] all[a]) && is_progress(#[trigger] all[b]) implies current_of(
        all[a],
    ) <= current_of(all[b]) by {
        assert(all[a] == body[a]);
        assert(all[b] == body[b]);
    }
}

/// The units done after item `i` are those before it plus its own span, and
/// they never shrink from one item to a later one.
pub proof fn lemma_done_offsets(sizes: Seq<u64>, i: int, j: int)
    requires
        0 <= i <= j <= sizes.len(),
    ensures
        units(sizes, i) <= units(sizes, j),
        i < sizes.len() ==> units(sizes, i + 1) == units(sizes, i) + span_of(sizes[i] as nat),
{
    lemma_units_monotone(sizes, i, j);
}

/// Every estimate for item `k` stays below the value of that item's terminal
/// progress event, the units done once it is finished.
pub proof fn lemma_estimate_below_item_end(sizes: Seq<u64>, k: int, percent: nat)
    requires
        0 <= k < sizes.len(),
        1 <= percent <= crate::progress::LAST_PERCENT,
    ensures
        units(sizes, k) + crate::progress::tick_offset(span_of(sizes[k] as nat), percent) < units(sizes, k + 1),
{
    crate::progress::lemma_tick_below_terminal(units(sizes, k), span_of(sizes[k] as nat), percent);
}

} // verus!
