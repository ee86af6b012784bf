//! The queue manager's state and rules: the ordered job list, the task of each
//! attempt in flight, the concurrency cap, admission, completion, pause,
//! resume, cancel, reorder and restore. Running subprocesses, timers and
//! events is left to the caller, which applies each decision made here.
use vstd::prelude::*;
use crate::progress::{dec_le, is_complete, Decimal, DownloadProgress};
use crate::task::{
    DownloadItem, DownloadStatus, DownloadTask, can_transition, copy_string, is_terminal,
    restored, with_progress_reset,
};
use crate::text::same_text;

verus! {

/// The concurrency cap of a new manager.
pub const DEFAULT_MAX_CONCURRENT: usize = 3;

/// The smallest cap that can be set.
pub const MIN_CONCURRENT: usize = 1;

/// The largest cap that can be set.
pub const MAX_CONCURRENT: usize = 5;

/// How long one download may run, in minutes.
pub const DOWNLOAD_TIMEOUT_MINUTES: u64 = 30;

/// One job of the queue, with the task of its attempt while one is in flight.
#[derive(Debug)]
pub struct QueueEntry {
    pub item: DownloadItem,
    pub task: Option<DownloadTask>,
}

/// Why a batch of jobs was refused.
#[derive(Clone, Debug)]
pub enum QueueError {
    /// The id is already in the queue, or twice in the batch.
    DuplicateId(String),
}

/// How one attempt ended, as its executor saw it.
#[derive(Clone, Debug)]
pub enum DownloadOutcome {
    /// The subprocess exited successfully.
    Succeeded,
    /// The attempt failed (spawn failure, non-zero exit, no provider); the
    /// message is for display.
    Failed(String),
    /// The attempt ran past the timeout.
    TimedOut,
}

/// What the scheduling loop should do next.
#[derive(Clone, Copy, Debug, PartialEq, Eq, Structural)]
pub enum LoopAction {
    /// Admit the next ready job.
    Admit,
    /// Nothing to admit now; wait and look again.
    Wait,
    /// No queued and no in-flight work: the loop has stopped.
    Stop,
}

/// The mathematical state of a manager.
pub struct QueueView {
    pub entries: Seq<QueueEntry>,
    pub max_concurrent: nat,
    pub processing: bool,
}

/// Owns the ordered job list, the tasks in flight and the concurrency cap.
pub struct DownloadManager {
    entries: Vec<QueueEntry>,
    max_concurrent: usize,
    processing: bool,
}

/// Number of entries of `s` that satisfy `f`.
pub open spec fn count_where(s: Seq<QueueEntry>, f: spec_fn(QueueEntry) -> bool) -> nat
    decreases s.len(),
{
    if s.len() == 0 {
        0
    } else {
        count_where(s.drop_last(), f) + if f(s.last()) {
            1nat
        } else {
            0nat
        }
    }
}

pub open spec fn has_task(e: QueueEntry) -> bool {
    e.task is Some
}

pub open spec fn is_downloading(e: QueueEntry) -> bool {
    e.item.status == DownloadStatus::Downloading
}

pub open spec fn is_queued(e: QueueEntry) -> bool {
    e.item.status == DownloadStatus::Queued
}

/// Queued, and no earlier attempt of the job is still winding down.
pub open spec fn is_ready(e: QueueEntry) -> bool {
    e.item.status == DownloadStatus::Queued && e.task is None
}

/// Tasks in flight.
pub open spec fn active_count(s: Seq<QueueEntry>) -> nat {
    count_where(s, |e: QueueEntry| has_task(e))
}

/// Jobs whose status is Downloading.
pub open spec fn downloading_count(s: Seq<QueueEntry>) -> nat {
    count_where(s, |e: QueueEntry| is_downloading(e))
}

/// No two jobs share an id.
pub open spec fn ids_unique(s: Seq<QueueEntry>) -> bool {
    forall|i: int, j: int|
        0 <= i < s.len() && 0 <= j < s.len() && i != j ==> #[trigger] s[i].item.id@
            != #[trigger] s[j].item.id@
}

/// The index of the job with id `id`.
pub open spec fn index_of(s: Seq<QueueEntry>, id: Seq<char>) -> Option<int> {
    if exists|i: int| 0 <= i < s.len() && s[i].item.id@ == id {
        Some(choose|i: int| 0 <= i < s.len() && s[i].item.id@ == id)
    } else {
        None
    }
}

/// The first ready job at or after `i`.
pub open spec fn first_ready_from(s: Seq<QueueEntry>, i: int) -> Option<int>
    decreases s.len() - i,
{
    if i < 0 || i >= s.len() {
        None
    } else if is_ready(s[i]) {
        Some(i)
    } else {
        first_ready_from(s, i + 1)
    }
}

/// The cap clamped to `[MIN_CONCURRENT, MAX_CONCURRENT]`.
pub open spec fn clamp_cap(max: nat) -> nat {
    if max < MIN_CONCURRENT {
        MIN_CONCURRENT as nat
    } else if max > MAX_CONCURRENT {
        MAX_CONCURRENT as nat
    } else {
        max
    }
}

/// The entry a job enters the queue as.
pub open spec fn entry_of_new(item: DownloadItem) -> QueueEntry {
    QueueEntry { item: DownloadItem { status: DownloadStatus::Queued, ..item }, task: None }
}

/// A batch can be enqueued: its ids are new and distinct.
pub open spec fn batch_acceptable(s: Seq<QueueEntry>, items: Seq<DownloadItem>) -> bool {
    &&& forall|k: int, i: int|
        0 <= k < items.len() && 0 <= i < s.len() ==> #[trigger] items[k].id@
            != #[trigger] s[i].item.id@
    &&& forall|k: int, l: int|
        0 <= k < items.len() && 0 <= l < items.len() && k != l ==> #[trigger] items[k].id@
            != #[trigger] items[l].id@
}

/// The job as admitted for execution.
pub open spec fn admitted(item: DownloadItem) -> DownloadItem {
    DownloadItem { status: DownloadStatus::Downloading, ..item }
}

/// Every job keeps its place and id, and its status either stays or moves
/// along an edge of the lifecycle graph.
pub open spec fn follows_graph(before: Seq<QueueEntry>, after: Seq<QueueEntry>) -> bool {
    &&& before.len() == after.len()
    &&& forall|i: int|
        0 <= i < before.len() ==> (#[trigger] after[i]).item.id@ == before[i].item.id@ && (
        after[i].item.status == before[i].item.status || can_transition(
            before[i].item.status,
            after[i].item.status,
        ))
}

/// Only entry `k` may differ between `before` and `after`.
pub open spec fn same_except(before: Seq<QueueEntry>, after: Seq<QueueEntry>, k: int) -> bool {
    &&& before.len() == after.len()
    &&& forall|j: int| 0 <= j < before.len() && j != k ==> #[trigger] after[j] == before[j]
}

/// The status an attempt leaves its job in. A job no longer Downloading
/// (paused or cancelled meanwhile) keeps its status; otherwise a raised
/// cancellation signal wins over any exit.
pub open spec fn finished_status(
    status: DownloadStatus,
    cancelled: bool,
    outcome: DownloadOutcome,
) -> DownloadStatus {
    if status != DownloadStatus::Downloading {
        status
    } else if cancelled {
        DownloadStatus::Cancelled
    } else {
        match outcome {
            DownloadOutcome::Succeeded => DownloadStatus::Completed,
            _ => DownloadStatus::Failed,
        }
    }
}

/// The message a timed-out attempt leaves on its job.
pub open spec fn timeout_text() -> Seq<char> {
    "Download timed out after 30 minutes. The video may be too large or the connection too slow. Please try again or check your network connection."@
}

/// The error an attempt leaves on its job.
pub open spec fn finished_error(
    item: DownloadItem,
    cancelled: bool,
    outcome: DownloadOutcome,
) -> Option<Seq<char>> {
    if item.status == DownloadStatus::Downloading && !cancelled {
        match outcome {
            DownloadOutcome::Failed(msg) => Some(msg@),
            DownloadOutcome::TimedOut => Some(timeout_text()),
            DownloadOutcome::Succeeded => opt_text(item.error),
        }
    } else {
        opt_text(item.error)
    }
}

/// A task that is the same attempt as `before`, with its signal raised.
pub open spec fn signalled(before: Option<DownloadTask>, after: Option<DownloadTask>) -> bool {
    match (before, after) {
        (Some(a), Some(b)) => b.spec_item() == a.spec_item() && b.spec_cancelled(),
        (None, None) => true,
        _ => false,
    }
}

/// The same attempt, its signal unchanged.
pub open spec fn same_task(before: Option<DownloadTask>, after: Option<DownloadTask>) -> bool {
    match (before, after) {
        (Some(a), Some(b)) => b.spec_item() == a.spec_item() && b.spec_cancelled()
            == a.spec_cancelled(),
        (None, None) => true,
        _ => false,
    }
}

pub open spec fn opt_text(e: Option<String>) -> Option<Seq<char>> {
    match e {
        Some(s) => Some(s@),
        None => None,
    }
}

/// The percentage a Downloading job records from `p`: capped at 100, and
/// never below what it already shows.
pub open spec fn recorded_percentage(current: Decimal, p: DownloadProgress) -> Decimal {
    let capped = if is_complete(p) {
        Decimal { mantissa: 100, scale: 0 }
    } else {
        p.percentage
    };
    if dec_le(current, capped) {
        capped
    } else {
        current
    }
}

/// Recording progress never lowers a job's percentage, nor takes it above
/// 100 when it was not.
pub proof fn lemma_progress_never_lowered(current: Decimal, p: DownloadProgress)
    ensures
        dec_le(current, recorded_percentage(current, p)),
        dec_le(current, Decimal { mantissa: 100, scale: 0 }) ==> dec_le(
            recorded_percentage(current, p),
            Decimal { mantissa: 100, scale: 0 },
        ),
{
    let hundred = Decimal { mantissa: 100, scale: 0 };
    assert(crate::text::pow10(0) == 1);
    assert(crate::text::pow10(hundred.scale as nat) == 1);
    if !is_complete(p) {
        let q = p.percentage;
        assert(q.mantissa * crate::text::pow10(hundred.scale as nat) == q.mantissa);
        assert(dec_le(q, hundred));
    }
}

/// A Downloading job can be paused, or a Queued one.
pub open spec fn can_pause(s: DownloadStatus) -> bool {
    s == DownloadStatus::Queued || s == DownloadStatus::Downloading
}

/// `s` with the entry at `from` moved to `to`.
pub open spec fn moved(s: Seq<QueueEntry>, from: int, to: int) -> Seq<QueueEntry> {
    s.remove(from).insert(to, s[from])
}

/// Some job with id `id` is Downloading.
pub open spec fn downloading_id(s: Seq<QueueEntry>, id: Seq<char>) -> bool {
    exists|i: int| 0 <= i < s.len() && #[trigger] s[i].item.id@ == id && is_downloading(s[i])
}

/// The persisted list as it enters the queue: each job restored, none in flight.
pub open spec fn restored_entries(items: Seq<DownloadItem>) -> Seq<QueueEntry> {
    items.map_values(|it: DownloadItem| QueueEntry { item: restored(it), task: None })
}

/// The ids of a list are distinct.
pub open spec fn item_ids_unique(items: Seq<DownloadItem>) -> bool {
    forall|k: int, l: int|
        0 <= k < items.len() && 0 <= l < items.len() && k != l ==> #[trigger] items[k].id@
            != #[trigger] items[l].id@
}

/// The loop has admissible work: a ready job and a free slot.
pub open spec fn has_work(v: QueueView) -> bool {
    first_ready_from(v.entries, 0) is Some && active_count(v.entries) < v.max_concurrent
}

/// No job is Queued.
pub open spec fn none_queued(s: Seq<QueueEntry>) -> bool {
    forall|i: int| 0 <= i < s.len() ==> !is_queued(#[trigger] s[i])
}

impl QueueView {
    /// The manager's invariant: ids are unique, every Downloading job has a
    /// task in flight, and the cap is within bounds.
    pub open spec fn wf(&self) -> bool {
        &&& ids_unique(self.entries)
        &&& forall|i: int| 0 <= i < self.entries.len() && is_downloading(#[trigger] self.entries[i])
            ==> has_task(self.entries[i])
        &&& MIN_CONCURRENT <= self.max_concurrent <= MAX_CONCURRENT
    }

    /// Jobs Downloading at once do not exceed the cap.
    pub open spec fn downloading_within_cap(&self) -> bool {
        downloading_count(self.entries) <= self.max_concurrent
    }

    /// Tasks in flight do not exceed the cap.
    pub open spec fn within_cap(&self) -> bool {
        active_count(self.entries) <= self.max_concurrent
    }
}

impl View for DownloadManager {
    type V = QueueView;

    closed spec fn view(&self) -> QueueView {
        QueueView {
            entries: self.entries@,
            max_concurrent: self.max_concurrent as nat,
            processing: self.processing,
        }
    }
}

pub proof fn lemma_count_push(s: Seq<QueueEntry>, e: QueueEntry, f: spec_fn(QueueEntry) -> bool)
    ensures
        count_where(s.push(e), f) == count_where(s, f) + if f(e) {
            1nat
        } else {
            0nat
        },
{
    assert(s.push(e).drop_last() =~= s);
}

pub proof fn lemma_count_update(
    s: Seq<QueueEntry>,
    i: int,
    e: QueueEntry,
    f: spec_fn(QueueEntry) -> bool,
)
    requires
        0 <= i < s.len(),
    ensures
        count_where(s.update(i, e), f) + (if f(s[i]) {
            1nat
        } else {
            0nat
        }) == count_where(s, f) + if f(e) {
            1nat
        } else {
            0nat
        },
    decreases s.len(),
{
    if i == s.len() - 1 {
        assert(s.update(i, e).drop_last() =~= s.drop_last());
    } else {
        assert(s.update(i, e).drop_last() =~= s.drop_last().update(i, e));
        lemma_count_update(s.drop_last(), i, e, f);
    }
}

pub proof fn lemma_count_remove(s: Seq<QueueEntry>, i: int, f: spec_fn(QueueEntry) -> bool)
    requires
        0 <= i < s.len(),
    ensures
        count_where(s.remove(i), f) + (if f(s[i]) {
            1nat
        } else {
            0nat
        }) == count_where(s, f),
    decreases s.len(),
{
    if i == s.len() - 1 {
        assert(s.remove(i) =~= s.drop_last());
    } else {
        assert(s.remove(i).drop_last() =~= s.drop_last().remove(i));
        lemma_count_remove(s.drop_last(), i, f);
    }
}

pub proof fn lemma_count_insert(
    s: Seq<QueueEntry>,
    j: int,
    e: QueueEntry,
    f: spec_fn(QueueEntry) -> bool,
)
    requires
        0 <= j <= s.len(),
    ensures
        count_where(s.insert(j, e), f) == count_where(s, f) + if f(e) {
            1nat
        } else {
            0nat
        },
    decreases s.len(),
{
    if j == s.len() {
        assert(s.insert(j, e) =~= s.push(e));
        lemma_count_push(s, e, f);
    } else {
        assert(s.insert(j, e).drop_last() =~= s.drop_last().insert(j, e));
        lemma_count_insert(s.drop_last(), j, e, f);
    }
}

/// Where every entry that satisfies `f` satisfies `g`, `f` counts no more than `g`.
pub proof fn lemma_count_implies(
    s: Seq<QueueEntry>,
    f: spec_fn(QueueEntry) -> bool,
    g: spec_fn(QueueEntry) -> bool,
)
    requires
        forall|i: int| 0 <= i < s.len() && f(#[trigger] s[i]) ==> g(s[i]),
    ensures
        count_where(s, f) <= count_where(s, g),
    decreases s.len(),
{
    if s.len() > 0 {
        assert forall|i: int| 0 <= i < s.drop_last().len() && f(#[trigger] s.drop_last()[i]) implies g(
            s.drop_last()[i],
        ) by {
            assert(s.drop_last()[i] == s[i]);
        }
        lemma_count_implies(s.drop_last(), f, g);
    }
}

/// Jobs that are Downloading never outnumber the tasks in flight.
pub proof fn lemma_downloading_le_active(v: QueueView)
    requires
        v.wf(),
    ensures
        downloading_count(v.entries) <= active_count(v.entries),
{
    lemma_count_implies(
        v.entries,
        |e: QueueEntry| is_downloading(e),
        |e: QueueEntry| has_task(e),
    );
}

impl DownloadManager {
    /// An empty manager with the default cap, its loop not running.
    pub fn new() -> (r: DownloadManager)
        ensures
            r@.wf(),
            r@.within_cap(),
            r@.downloading_within_cap(),
            r@.entries.len() == 0,
            r@.max_concurrent == DEFAULT_MAX_CONCURRENT,
            !r@.processing,
    {
        DownloadManager {
            entries: Vec::new(),
            max_concurrent: DEFAULT_MAX_CONCURRENT,
            processing: false,
        }
    }

    /// Sets the cap, clamped to `[MIN_CONCURRENT, MAX_CONCURRENT]`.
    pub fn set_max_concurrent(&mut self, max: usize)
        requires
            old(self)@.wf(),
        ensures
            final(self)@.wf(),
            final(self)@.max_concurrent == clamp_cap(max as nat),
            old(self)@.downloading_within_cap() && old(self)@.max_concurrent <= clamp_cap(max as nat)
                ==> final(self)@.downloading_within_cap(),
            final(self)@.entries == old(self)@.entries,
            final(self)@.processing == old(self)@.processing,
    {
        self.max_concurrent = if max < MIN_CONCURRENT {
            MIN_CONCURRENT
        } else if max > MAX_CONCURRENT {
            MAX_CONCURRENT
        } else {
            max
        };
    }

    /// The cap.
    pub fn max_concurrent(&self) -> (r: usize)
        ensures
            r == self@.max_concurrent,
    {
        self.max_concurrent
    }

    /// Whether a scheduling loop is running.
    pub fn is_processing(&self) -> (r: bool)
        ensures
            r == self@.processing,
    {
        self.processing
    }

    /// Number of jobs in the list.
    pub fn len(&self) -> (r: usize)
        ensures
            r == self@.entries.len(),
    {
        self.entries.len()
    }

    /// The index of the job with id `id`.
    pub fn position_of(&self, id: &str) -> (r: Option<usize>)
        requires
            ids_unique(self@.entries),
        ensures
            r == (match index_of(self@.entries, id@) {
                Some(i) => Some(i as usize),
                None => None,
            }),
            r matches Some(i) ==> i < self@.entries.len() && self@.entries[i as int].item.id@
                == id@,
    {
        let mut i: usize = 0;
        while i < self.entries.len()
            invariant
                i <= self@.entries.len(),
                ids_unique(self@.entries),
                forall|j: int| 0 <= j < i ==> self@.entries[j].item.id@ != id@,
            decreases self@.entries.len() - i,
        {
            if same_text(self.entries[i].item.id.as_str(), id) {
                proof {
                    let s = self@.entries;
                    assert(s[i as int].item.id@ == id@);
                    let k = choose|k: int| 0 <= k < s.len() && s[k].item.id@ == id@;
                    assert(k == i as int);
                }
                return Some(i);
            }
            i = i + 1;
        }
        None
    }

    /// Whether any job in the list has id `id`.
    fn holds_id(&self, id: &String) -> (r: bool)
        ensures
            r == exists|i: int| 0 <= i < self@.entries.len() && self@.entries[i].item.id@ == id@,
    {
        let mut i: usize = 0;
        while i < self.entries.len()
            invariant
                i <= self@.entries.len(),
                forall|j: int| 0 <= j < i ==> self@.entries[j].item.id@ != id@,
            decreases self@.entries.len() - i,
        {
            if self.entries[i].item.id == *id {
                return true;
            }
            i = i + 1;
        }
        false
    }

    /// Appends a batch of jobs, each entering as Queued, unless an id of the
    /// batch is already in the queue or appears twice in it; then nothing
    /// changes. An accepted batch marks the scheduling loop as running; the
    /// result says whether a loop must be started (none was running).
    pub fn add_to_queue(&mut self, items: Vec<DownloadItem>) -> (r: Result<bool, QueueError>)
        requires
            old(self)@.wf(),
        ensures
            final(self)@.wf(),
            r is Ok == batch_acceptable(old(self)@.entries, items@),
            r is Ok ==> final(self)@.entries == old(self)@.entries + items@.map_values(
                |it: DownloadItem| entry_of_new(it),
            ),
            r is Err ==> final(self)@.entries == old(self)@.entries,
            final(self)@.max_concurrent == old(self)@.max_concurrent,
            r matches Ok(start) ==> start == !old(self)@.processing && final(self)@.processing,
            r is Err ==> final(self)@.processing == old(self)@.processing,
            old(self)@.within_cap() ==> final(self)@.within_cap(),
            old(self)@.downloading_within_cap() ==> final(self)@.downloading_within_cap(),
    {
        let n = items.len();
        let mut k: usize = 0;
        while k < n
            invariant
                n == items@.len(),
                k <= n,
                self@ == old(self)@,
                old(self)@.wf(),
                forall|a: int, i: int|
                    0 <= a < k && 0 <= i < self@.entries.len() ==> #[trigger] items@[a].id@
                        != #[trigger] self@.entries[i].item.id@,
                forall|a: int, b: int|
                    0 <= a < k && 0 <= b < n && a != b ==> #[trigger] items@[a].id@
                        != #[trigger] items@[b].id@,
            decreases n - k,
        {
            if self.holds_id(&items[k].id) {
                return Err(QueueError::DuplicateId(copy_string(&items[k].id)));
            }
            let mut l: usize = 0;
            while l < n
                invariant
                    n == items@.len(),
                    k < n,
                    l <= n,
                    self@ == old(self)@,
                    old(self)@.wf(),
                    forall|b: int| 0 <= b < l && b != k ==> items@[k as int].id@ != #[trigger] items@[b].id@,
                decreases n - l,
            {
                if l != k && items[l].id == items[k].id {
                    return Err(QueueError::DuplicateId(copy_string(&items[k].id)));
                }
                l = l + 1;
            }
            k = k + 1;
        }
        let ghost old_entries = self@.entries;
        let ghost added = items@.map_values(|it: DownloadItem| entry_of_new(it));
        let mut k: usize = 0;
        while k < n
            invariant
                n == items@.len(),
                k <= n,
                added == items@.map_values(|it: DownloadItem| entry_of_new(it)),
                self@.entries == old_entries + added.subrange(0, k as int),
                self@.max_concurrent == old(self)@.max_concurrent,
                self@.processing == old(self)@.processing,
                old(self)@.entries == old_entries,
                old(self)@.wf(),
                batch_acceptable(old_entries, items@),
                active_count(self@.entries) == active_count(old_entries),
                downloading_count(self@.entries) == downloading_count(old_entries),
            decreases n - k,
        {
            let mut item = items[k].snapshot();
            item.status = DownloadStatus::Queued;
            let entry = QueueEntry { item, task: None };
            proof {
                lemma_count_push(self@.entries, entry, |e: QueueEntry| has_task(e));
                lemma_count_push(self@.entries, entry, |e: QueueEntry| is_downloading(e));
                assert(old_entries + added.subrange(0, k + 1) =~= (old_entries + added.subrange(
                    0,
                    k as int,
                )).push(entry));
            }
            self.entries.push(entry);
            k = k + 1;
        }
        proof {
            assert(added.subrange(0, n as int) =~= added);
            let s = self@.entries;
            assert forall|i: int, j: int|
                0 <= i < s.len() && 0 <= j < s.len() && i != j implies #[trigger] s[i].item.id@
                != #[trigger] s[j].item.id@ by {
                let m = old_entries.len() as int;
                if i >= m && j >= m {
                    assert(s[i].item.id@ == items@[i - m].id@);
                    assert(s[j].item.id@ == items@[j - m].id@);
                } else if i >= m {
                    assert(s[i].item.id@ == items@[i - m].id@);
                    assert(s[j] == old_entries[j]);
                } else if j >= m {
                    assert(s[j].item.id@ == items@[j - m].id@);
                    assert(s[i] == old_entries[i]);
                }
            }
        }
        let start = !self.processing;
        self.processing = true;
        Ok(start)
    }

    /// Number of tasks in flight.
    pub fn active_downloads(&self) -> (r: usize)
        ensures
            r == active_count(self@.entries),
    {
        let mut c: usize = 0;
        let mut i: usize = 0;
        while i < self.entries.len()
            invariant
                i <= self@.entries.len(),
                c == active_count(self@.entries.subrange(0, i as int)),
                c <= i,
            decreases self@.entries.len() - i,
        {
            proof {
                assert(self@.entries.subrange(0, i + 1).drop_last() =~= self@.entries.subrange(
                    0,
                    i as int,
                ));
            }
            if self.entries[i].task.is_some() {
                c = c + 1;
            }
            i = i + 1;
        }
        proof {
            assert(self@.entries.subrange(0, i as int) =~= self@.entries);
        }
        c
    }

    /// The first ready job: Queued, with no earlier attempt still in flight.
    fn first_ready(&self) -> (r: Option<usize>)
        ensures
            r == (match first_ready_from(self@.entries, 0) {
                Some(k) => Some(k as usize),
                None => None,
            }),
            r matches Some(k) ==> k < self@.entries.len() && first_ready_from(self@.entries, 0)
                == Some(k as int) && is_ready(self@.entries[k as int]),
    {
        let mut i: usize = 0;
        while i < self.entries.len()
            invariant
                i <= self@.entries.len(),
                first_ready_from(self@.entries, i as int) == first_ready_from(self@.entries, 0),
            decreases self@.entries.len() - i,
        {
            if self.entries[i].item.status == DownloadStatus::Queued
                && self.entries[i].task.is_none() {
                assert(first_ready_from(self@.entries, i as int) == Some(i as int));
                return Some(i);
            }
            i = i + 1;
        }
        None
    }

    /// Whether the loop has admissible work: a ready job and a free slot.
    pub fn has_work(&self) -> (r: bool)
        ensures
            r == has_work(self@),
    {
        self.first_ready().is_some() && self.active_downloads() < self.max_concurrent
    }

    /// Whether some job is Queued.
    fn any_queued(&self) -> (r: bool)
        ensures
            r == !none_queued(self@.entries),
    {
        let mut i: usize = 0;
        while i < self.entries.len()
            invariant
                i <= self@.entries.len(),
                forall|j: int| 0 <= j < i ==> !is_queued(#[trigger] self@.entries[j]),
            decreases self@.entries.len() - i,
        {
            if self.entries[i].item.status == DownloadStatus::Queued {
                return true;
            }
            i = i + 1;
        }
        false
    }

    /// Marks the loop as running; false when one already runs, in which case
    /// no second loop may be started.
    pub fn start_processing(&mut self) -> (started: bool)
        ensures
            started == !old(self)@.processing,
            final(self)@.processing,
            final(self)@.entries == old(self)@.entries,
            final(self)@.max_concurrent == old(self)@.max_concurrent,
    {
        if self.processing {
            false
        } else {
            self.processing = true;
            true
        }
    }

    /// One turn of the scheduling loop: admit while there is admissible work;
    /// stop, and mark the loop as not running, once nothing is queued and
    /// nothing is in flight; else wait.
    pub fn next_loop_action(&mut self) -> (r: LoopAction)
        ensures
            final(self)@.entries == old(self)@.entries,
            final(self)@.max_concurrent == old(self)@.max_concurrent,
            has_work(old(self)@) ==> r == LoopAction::Admit,
            !has_work(old(self)@) && none_queued(old(self)@.entries) && active_count(
                old(self)@.entries,
            ) == 0 ==> r == LoopAction::Stop,
            r == LoopAction::Stop ==> !final(self)@.processing,
            r != LoopAction::Stop ==> final(self)@.processing == old(self)@.processing,
            (r == LoopAction::Wait) == (!has_work(old(self)@) && !(none_queued(old(self)@.entries)
                && active_count(old(self)@.entries) == 0)),
    {
        if self.has_work() {
            LoopAction::Admit
        } else if !self.any_queued() && self.active_downloads() == 0 {
            self.processing = false;
            LoopAction::Stop
        } else {
            LoopAction::Wait
        }
    }

    /// Admission: when a slot is free, the first ready job becomes
    /// Downloading and gets a fresh task; the job is handed back for execution.
    pub fn process_next_item(&mut self) -> (r: Option<DownloadItem>)
        requires
            old(self)@.wf(),
        ensures
            final(self)@.wf(),
            final(self)@.max_concurrent == old(self)@.max_concurrent,
            final(self)@.processing == old(self)@.processing,
            follows_graph(old(self)@.entries, final(self)@.entries),
            old(self)@.within_cap() ==> final(self)@.within_cap(),
            old(self)@.downloading_within_cap() ==> final(self)@.downloading_within_cap(),
            r is Some ==> active_count(old(self)@.entries) < old(self)@.max_concurrent
                && active_count(final(self)@.entries) <= final(self)@.max_concurrent,
            !has_work(old(self)@) ==> r is None && final(self)@.entries == old(self)@.entries,
            has_work(old(self)@) ==> ({
                let k = first_ready_from(old(self)@.entries, 0)->0;
                let it = admitted(old(self)@.entries[k].item);
                &&& r == Some(it)
                &&& same_except(old(self)@.entries, final(self)@.entries, k)
                &&& final(self)@.entries[k].item == it
                &&& final(self)@.entries[k].task matches Some(t) && t.spec_item() == it
                    && !t.spec_cancelled()
            }),
    {
        proof {
            lemma_downloading_le_active(self@);
        }
        if self.active_downloads() >= self.max_concurrent {
            return None;
        }
        let k = match self.first_ready() {
            Some(k) => k,
            None => return None,
        };
        let ghost before = self@.entries;
        let mut item = self.entries[k].item.snapshot();
        item.status = DownloadStatus::Downloading;
        let handed = item.snapshot();
        let task = DownloadTask::new(item.snapshot());
        let entry = QueueEntry { item, task: Some(task) };
        proof {
            lemma_count_update(before, k as int, entry, |e: QueueEntry| has_task(e));
            lemma_count_update(before, k as int, entry, |e: QueueEntry| is_downloading(e));
        }
        self.entries.set(k, entry);
        proof {
            let s = self@.entries;
            assert forall|i: int, j: int|
                0 <= i < s.len() && 0 <= j < s.len() && i != j implies #[trigger] s[i].item.id@
                != #[trigger] s[j].item.id@ by {
                assert(s[i].item.id@ == before[i].item.id@);
                assert(s[j].item.id@ == before[j].item.id@);
            }
            assert(is_ready(before[k as int]));
            assert(s[k as int].item == admitted(before[k as int].item));
            assert(can_transition(before[k as int].item.status, s[k as int].item.status));
            assert(handed == admitted(before[k as int].item));
            assert(same_except(before, s, k as int));
        }
        Some(handed)
    }

    /// Ends the attempt of job `id`: its task leaves the active set, exactly
    /// once, and a job still Downloading gets its final status (Cancelled when
    /// the signal was raised, whatever the exit). Returns that status, or
    /// `None` when the job was no longer Downloading or had no attempt in flight.
    pub fn finish_download(&mut self, id: &str, outcome: DownloadOutcome) -> (r: Option<
        DownloadStatus,
    >)
        requires
            old(self)@.wf(),
        ensures
            final(self)@.wf(),
            final(self)@.max_concurrent == old(self)@.max_concurrent,
            final(self)@.processing == old(self)@.processing,
            follows_graph(old(self)@.entries, final(self)@.entries),
            old(self)@.within_cap() ==> final(self)@.within_cap(),
            old(self)@.downloading_within_cap() ==> final(self)@.downloading_within_cap(),
            match index_of(old(self)@.entries, id@) {
                Some(k) => match old(self)@.entries[k].task {
                    Some(t) => {
                        let e = old(self)@.entries[k];
                        let st = finished_status(e.item.status, t.spec_cancelled(), outcome);
                        &&& same_except(old(self)@.entries, final(self)@.entries, k)
                        &&& final(self)@.entries[k].task is None
                        &&& final(self)@.entries[k].item.status == st
                        &&& opt_text(final(self)@.entries[k].item.error) == finished_error(
                            e.item,
                            t.spec_cancelled(),
                            outcome,
                        )
                        &&& final(self)@.entries[k].item == DownloadItem {
                            status: st,
                            error: final(self)@.entries[k].item.error,
                            ..e.item
                        }
                        &&& t.spec_cancelled() && e.item.status == DownloadStatus::Downloading
                            ==> st == DownloadStatus::Cancelled
                        &&& r == if e.item.status == DownloadStatus::Downloading {
                            Some(st)
                        } else {
                            None
                        }
                    },
                    None => r is None && final(self)@.entries == old(self)@.entries,
                },
                None => r is None && final(self)@.entries == old(self)@.entries,
            },
    {
        let k = match self.position_of(id) {
            Some(k) => k,
            None => return None,
        };
        let cancelled = match &self.entries[k].task {
            Some(t) => t.is_cancelled(),
            None => return None,
        };
        let ghost before = self@.entries;
        let status = self.entries[k].item.status;
        let mut item = self.entries[k].item.snapshot();
        let result = if status == DownloadStatus::Downloading {
            if cancelled {
                item.status = DownloadStatus::Cancelled;
            } else {
                match &outcome {
                    DownloadOutcome::Succeeded => {
                        item.status = DownloadStatus::Completed;
                    },
                    DownloadOutcome::Failed(msg) => {
                        item.status = DownloadStatus::Failed;
                        item.error = Some(copy_string(msg));
                    },
                    DownloadOutcome::TimedOut => {
                        item.status = DownloadStatus::Failed;
                        item.error = Some(timeout_message());
                    },
                }
            }
            Some(item.status)
        } else {
            None
        };
        let entry = QueueEntry { item, task: None };
        proof {
            lemma_count_update(before, k as int, entry, |e: QueueEntry| has_task(e));
            lemma_count_update(before, k as int, entry, |e: QueueEntry| is_downloading(e));
        }
        self.entries.set(k, entry);
        proof {
            let s = self@.entries;
            assert forall|i: int, j: int|
                0 <= i < s.len() && 0 <= j < s.len() && i != j implies #[trigger] s[i].item.id@
                != #[trigger] s[j].item.id@ by {
                assert(s[i].item.id@ == before[i].item.id@);
                assert(s[j].item.id@ == before[j].item.id@);
            }
        }
        result
    }

    /// Pauses job `id` when it is Queued or Downloading, raising the signal of
    /// its attempt in flight. Returns whether an attempt was signalled; any
    /// other job, or an unknown id, is left as it is.
    pub fn pause_download(&mut self, id: &str) -> (signalled_task: bool)
        requires
            old(self)@.wf(),
        ensures
            final(self)@.wf(),
            final(self)@.max_concurrent == old(self)@.max_concurrent,
            final(self)@.processing == old(self)@.processing,
            follows_graph(old(self)@.entries, final(self)@.entries),
            active_count(final(self)@.entries) == active_count(old(self)@.entries),
            old(self)@.downloading_within_cap() ==> final(self)@.downloading_within_cap(),
            match index_of(old(self)@.entries, id@) {
                Some(k) => {
                    let e = old(self)@.entries[k];
                    if can_pause(e.item.status) {
                        &&& same_except(old(self)@.entries, final(self)@.entries, k)
                        &&& final(self)@.entries[k].item == DownloadItem {
                            status: DownloadStatus::Paused,
                            ..e.item
                        }
                        &&& signalled(e.task, final(self)@.entries[k].task)
                        &&& signalled_task == (e.task is Some)
                    } else {
                        !signalled_task && final(self)@.entries == old(self)@.entries
                    }
                },
                None => !signalled_task && final(self)@.entries == old(self)@.entries,
            },
    {
        let k = match self.position_of(id) {
            Some(k) => k,
            None => return false,
        };
        let status = self.entries[k].item.status;
        if status != DownloadStatus::Queued && status != DownloadStatus::Downloading {
            return false;
        }
        self.set_status_and_signal(k, DownloadStatus::Paused)
    }

    /// Cancels job `id` when it is not in a final state, raising the signal of
    /// its attempt in flight. Returns whether an attempt was signalled; a job
    /// in a final state, or an unknown id, is left as it is.
    pub fn cancel_download(&mut self, id: &str) -> (signalled_task: bool)
        requires
            old(self)@.wf(),
        ensures
            final(self)@.wf(),
            final(self)@.max_concurrent == old(self)@.max_concurrent,
            final(self)@.processing == old(self)@.processing,
            follows_graph(old(self)@.entries, final(self)@.entries),
            active_count(final(self)@.entries) == active_count(old(self)@.entries),
            old(self)@.downloading_within_cap() ==> final(self)@.downloading_within_cap(),
            match index_of(old(self)@.entries, id@) {
                Some(k) => {
                    let e = old(self)@.entries[k];
                    if !is_terminal(e.item.status) {
                        &&& same_except(old(self)@.entries, final(self)@.entries, k)
                        &&& final(self)@.entries[k].item == DownloadItem {
                            status: DownloadStatus::Cancelled,
                            ..e.item
                        }
                        &&& signalled(e.task, final(self)@.entries[k].task)
                        &&& signalled_task == (e.task is Some)
                    } else {
                        !signalled_task && final(self)@.entries == old(self)@.entries
                    }
                },
                None => !signalled_task && final(self)@.entries == old(self)@.entries,
            },
    {
        let k = match self.position_of(id) {
            Some(k) => k,
            None => return false,
        };
        if self.entries[k].item.status.is_terminal() {
            return false;
        }
        self.set_status_and_signal(k, DownloadStatus::Cancelled)
    }

    /// Sets the status of entry `k`, whose current status has an edge to
    /// `status`, and raises the signal of its attempt in flight.
    fn set_status_and_signal(&mut self, k: usize, status: DownloadStatus) -> (signalled_task: bool)
        requires
            old(self)@.wf(),
            k < old(self)@.entries.len(),
            can_transition(old(self)@.entries[k as int].item.status, status),
            status != DownloadStatus::Downloading,
        ensures
            final(self)@.wf(),
            final(self)@.max_concurrent == old(self)@.max_concurrent,
            final(self)@.processing == old(self)@.processing,
            follows_graph(old(self)@.entries, final(self)@.entries),
            active_count(final(self)@.entries) == active_count(old(self)@.entries),
            downloading_count(final(self)@.entries) <= downloading_count(old(self)@.entries),
            same_except(old(self)@.entries, final(self)@.entries, k as int),
            final(self)@.entries[k as int].item == (DownloadItem {
                status,
                ..old(self)@.entries[k as int].item
            }),
            signalled(old(self)@.entries[k as int].task, final(self)@.entries[k as int].task),
            signalled_task == (old(self)@.entries[k as int].task is Some),
    {
        let ghost before = self@.entries;
        self.entries[k].item.status = status;
        let had_task = match &mut self.entries[k].task {
            Some(t) => {
                t.cancel();
                true
            },
            None => false,
        };
        proof {
            let s = self@.entries;
            lemma_count_update(before, k as int, s[k as int], |e: QueueEntry| has_task(e));
            lemma_count_update(before, k as int, s[k as int], |e: QueueEntry| is_downloading(e));
            assert(s =~= before.update(k as int, s[k as int]));
            assert forall|i: int, j: int|
                0 <= i < s.len() && 0 <= j < s.len() && i != j implies #[trigger] s[i].item.id@
                != #[trigger] s[j].item.id@ by {
                assert(s[i].item.id@ == before[i].item.id@);
                assert(s[j].item.id@ == before[j].item.id@);
            }
        }
        had_task
    }

    /// Resumes job `id` when it is Paused: it is Queued again with progress,
    /// speed and ETA zero, and the scheduling loop is marked as running.
    /// Returns `None` when nothing was resumed, else whether a loop must be
    /// started (none was running).
    pub fn resume_download(&mut self, id: &str) -> (resumed: Option<bool>)
        requires
            old(self)@.wf(),
        ensures
            final(self)@.wf(),
            final(self)@.max_concurrent == old(self)@.max_concurrent,
            resumed matches Some(start) ==> start == !old(self)@.processing && final(self)@.processing,
            resumed is None ==> final(self)@.processing == old(self)@.processing,
            follows_graph(old(self)@.entries, final(self)@.entries),
            active_count(final(self)@.entries) == active_count(old(self)@.entries),
            old(self)@.downloading_within_cap() ==> final(self)@.downloading_within_cap(),

            match index_of(old(self)@.entries, id@) {
                Some(k) => {
                    let e = old(self)@.entries[k];
                    if e.item.status == DownloadStatus::Paused {
                        &&& same_except(old(self)@.entries, final(self)@.entries, k)
                        &&& final(self)@.entries[k].item == DownloadItem {
                            status: DownloadStatus::Queued,
                            ..with_progress_reset(e.item)
                        }
                        &&& same_task(e.task, final(self)@.entries[k].task)
                        &&& resumed is Some
                    } else {
                        resumed is None && final(self)@.entries == old(self)@.entries
                    }
                },
                None => resumed is None && final(self)@.entries == old(self)@.entries,
            },
    {
        let k = match self.position_of(id) {
            Some(k) => k,
            None => return None,
        };
        if self.entries[k].item.status != DownloadStatus::Paused {
            return None;
        }
        let ghost before = self@.entries;
        self.entries[k].item.status = DownloadStatus::Queued;
        self.entries[k].item.reset_progress();
        proof {
            let s = self@.entries;
            lemma_count_update(before, k as int, s[k as int], |e: QueueEntry| has_task(e));
            lemma_count_update(before, k as int, s[k as int], |e: QueueEntry| is_downloading(e));
            assert(s =~= before.update(k as int, s[k as int]));
            assert forall|i: int, j: int|
                0 <= i < s.len() && 0 <= j < s.len() && i != j implies #[trigger] s[i].item.id@
                != #[trigger] s[j].item.id@ by {
                assert(s[i].item.id@ == before[i].item.id@);
                assert(s[j].item.id@ == before[j].item.id@);
            }
        }
        let start = !self.processing;
        self.processing = true;
        Some(start)
    }

    /// Records progress on job `id` while it is Downloading: its speed and
    /// ETA, and its percentage capped at 100 and never lowered. Returns
    /// whether the job was Downloading.
    pub fn update_progress(&mut self, id: &str, progress: DownloadProgress) -> (applied: bool)
        requires
            old(self)@.wf(),
        ensures
            final(self)@.wf(),
            final(self)@.max_concurrent == old(self)@.max_concurrent,
            final(self)@.processing == old(self)@.processing,
            follows_graph(old(self)@.entries, final(self)@.entries),
            active_count(final(self)@.entries) == active_count(old(self)@.entries),
            old(self)@.downloading_within_cap() ==> final(self)@.downloading_within_cap(),
            match index_of(old(self)@.entries, id@) {
                Some(k) => {
                    let e = old(self)@.entries[k];
                    if is_downloading(e) {
                        &&& same_except(old(self)@.entries, final(self)@.entries, k)
                        &&& final(self)@.entries[k].item == DownloadItem {
                            progress: recorded_percentage(e.item.progress, progress),
                            speed: progress.speed,
                            eta: progress.eta,
                            ..e.item
                        }
                        &&& same_task(e.task, final(self)@.entries[k].task)
                        &&& applied
                    } else {
                        !applied && final(self)@.entries == old(self)@.entries
                    }
                },
                None => !applied && final(self)@.entries == old(self)@.entries,
            },
    {
        let k = match self.position_of(id) {
            Some(k) => k,
            None => return false,
        };
        if self.entries[k].item.status != DownloadStatus::Downloading {
            return false;
        }
        let ghost before = self@.entries;
        let capped = if progress.is_complete() {
            Decimal::whole(100)
        } else {
            progress.percentage
        };
        let current = self.entries[k].item.progress;
        if current.at_most(&capped) {
            self.entries[k].item.progress = capped;
        }
        self.entries[k].item.speed = progress.speed;
        self.entries[k].item.eta = progress.eta;
        proof {
            let s = self@.entries;
            lemma_count_update(before, k as int, s[k as int], |e: QueueEntry| has_task(e));
            lemma_count_update(before, k as int, s[k as int], |e: QueueEntry| is_downloading(e));
            assert(s =~= before.update(k as int, s[k as int]));
            assert forall|i: int, j: int|
                0 <= i < s.len() && 0 <= j < s.len() && i != j implies #[trigger] s[i].item.id@
                != #[trigger] s[j].item.id@ by {
                assert(s[i].item.id@ == before[i].item.id@);
                assert(s[j].item.id@ == before[j].item.id@);
            }
        }
        true
    }

    /// Whether the attempt in flight for job `id` has had its signal raised.
    pub fn is_cancelled(&self, id: &str) -> (r: bool)
        requires
            ids_unique(self@.entries),
        ensures
            r == (match index_of(self@.entries, id@) {
                Some(k) => self@.entries[k].task matches Some(t) && t.spec_cancelled(),
                None => false,
            }),
    {
        match self.position_of(id) {
            Some(k) => match &self.entries[k].task {
                Some(t) => t.is_cancelled(),
                None => false,
            },
            None => false,
        }
    }

    /// A point-in-time copy of the job list, in order.
    pub fn get_queue_status(&self) -> (r: Vec<DownloadItem>)
        ensures
            r@ == self@.entries.map_values(|e: QueueEntry| e.item),
    {
        let mut r: Vec<DownloadItem> = Vec::new();
        let mut i: usize = 0;
        while i < self.entries.len()
            invariant
                i <= self@.entries.len(),
                r@ == self@.entries.subrange(0, i as int).map_values(|e: QueueEntry| e.item),
            decreases self@.entries.len() - i,
        {
            r.push(self.entries[i].item.snapshot());
            proof {
                assert(self@.entries.subrange(0, i + 1).map_values(|e: QueueEntry| e.item)
                    =~= self@.entries.subrange(0, i as int).map_values(|e: QueueEntry| e.item).push(
                    self@.entries[i as int].item,
                ));
            }
            i = i + 1;
        }
        proof {
            assert(self@.entries.subrange(0, i as int) =~= self@.entries);
        }
        r
    }
}

/// Where the entry at `i` of `moved(s, from, to)` was in `s`.
pub open spec fn moved_source(from: int, to: int, i: int) -> int {
    if i == to {
        from
    } else {
        let r = if i < to {
            i
        } else {
            i - 1
        };
        if r < from {
            r
        } else {
            r + 1
        }
    }
}

/// Where the entry at `j` of `s` is in `moved(s, from, to)`.
pub open spec fn moved_target(from: int, to: int, j: int) -> int {
    if j == from {
        to
    } else {
        let r = if j < from {
            j
        } else {
            j - 1
        };
        if r < to {
            r
        } else {
            r + 1
        }
    }
}

pub proof fn lemma_moved_index(s: Seq<QueueEntry>, from: int, to: int)
    requires
        0 <= from < s.len(),
        0 <= to < s.len(),
    ensures
        moved(s, from, to).len() == s.len(),
        forall|i: int|
            0 <= i < s.len() ==> 0 <= #[trigger] moved_source(from, to, i) < s.len() && moved(
                s,
                from,
                to,
            )[i] == s[moved_source(from, to, i)],
        forall|j: int|
            0 <= j < s.len() ==> 0 <= #[trigger] moved_target(from, to, j) < s.len()
                && moved_source(from, to, moved_target(from, to, j)) == j,
        forall|i: int, k: int|
            0 <= i < s.len() && 0 <= k < s.len() && i != k ==> #[trigger] moved_source(from, to, i)
                != #[trigger] moved_source(from, to, k),
{
    let m = moved(s, from, to);
    let r = s.remove(from);
    assert forall|i: int| 0 <= i < s.len() implies 0 <= #[trigger] moved_source(from, to, i) < s.len()
        && m[i] == s[moved_source(from, to, i)] by {
        if i < to {
            assert(m[i] == r[i]);
        } else if i > to {
            assert(m[i] == r[i - 1]);
        }
    }
}

/// Moving a job's place in the list never changes which jobs are Downloading.
pub proof fn lemma_reorder_keeps_downloading(
    s: Seq<QueueEntry>,
    from: int,
    to: int,
    id: Seq<char>,
)
    requires
        0 <= from < s.len(),
        0 <= to < s.len(),
    ensures
        downloading_id(moved(s, from, to), id) == downloading_id(s, id),
{
    lemma_moved_index(s, from, to);
    let m = moved(s, from, to);
    if downloading_id(s, id) {
        let j = choose|j: int| 0 <= j < s.len() && #[trigger] s[j].item.id@ == id && is_downloading(s[j]);
        let i = moved_target(from, to, j);
        assert(m[i] == s[j]);
        assert(downloading_id(m, id));
    }
    if downloading_id(m, id) {
        let i = choose|i: int| 0 <= i < m.len() && #[trigger] m[i].item.id@ == id && is_downloading(m[i]);
        let j = moved_source(from, to, i);
        assert(s[j] == m[i]);
        assert(downloading_id(s, id));
    }
}

impl DownloadManager {
    /// Moves the job at `from_index` to `to_index`; nothing changes when
    /// either index is out of bounds.
    pub fn reorder_queue(&mut self, from_index: usize, to_index: usize)
        requires
            old(self)@.wf(),
        ensures
            final(self)@.wf(),
            final(self)@.max_concurrent == old(self)@.max_concurrent,
            final(self)@.processing == old(self)@.processing,
            active_count(final(self)@.entries) == active_count(old(self)@.entries),
            downloading_count(final(self)@.entries) == downloading_count(old(self)@.entries),
            from_index < old(self)@.entries.len() && to_index < old(self)@.entries.len()
                ==> final(self)@.entries == moved(old(self)@.entries, from_index as int, to_index as int),
            !(from_index < old(self)@.entries.len() && to_index < old(self)@.entries.len())
                ==> final(self)@.entries == old(self)@.entries,
    {
        let len = self.entries.len();
        if from_index < len && to_index < len {
            let ghost before = self@.entries;
            let entry = self.entries.remove(from_index);
            self.entries.insert(to_index, entry);
            proof {
                let s = self@.entries;
                let f = from_index as int;
                let tt = to_index as int;
                assert(s =~= moved(before, f, tt));
                lemma_moved_index(before, f, tt);
                lemma_count_remove(before, f, |e: QueueEntry| has_task(e));
                lemma_count_insert(before.remove(f), tt, before[f], |e: QueueEntry| has_task(e));
                lemma_count_remove(before, f, |e: QueueEntry| is_downloading(e));
                lemma_count_insert(
                    before.remove(f),
                    tt,
                    before[f],
                    |e: QueueEntry| is_downloading(e),
                );
                assert forall|i: int, j: int|
                    0 <= i < s.len() && 0 <= j < s.len() && i != j implies #[trigger] s[i].item.id@
                    != #[trigger] s[j].item.id@ by {
                    assert(s[i] == before[moved_source(f, tt, i)]);
                    assert(s[j] == before[moved_source(f, tt, j)]);
                }
                assert forall|i: int| 0 <= i < s.len() && is_downloading(#[trigger] s[i]) implies has_task(
                    s[i],
                ) by {
                    assert(s[i] == before[moved_source(f, tt, i)]);
                }
            }
        }
    }

    /// Replaces the list with a persisted one, each job restored (Downloading
    /// becomes Queued from zero) and none in flight, and marks the scheduling
    /// loop as running; the result says whether a loop must be started. A
    /// list whose ids are not distinct is refused and nothing changes.
    pub fn restore_queue_state(&mut self, items: Vec<DownloadItem>) -> (r: Result<bool, QueueError>)
        requires
            old(self)@.wf(),
        ensures
            final(self)@.wf(),
            r is Ok ==> final(self)@.within_cap(),
            r is Ok ==> downloading_count(final(self)@.entries) == 0,
            final(self)@.max_concurrent == old(self)@.max_concurrent,
            r matches Ok(start) ==> start == !old(self)@.processing && final(self)@.processing,
            r is Err ==> final(self)@.processing == old(self)@.processing,
            r is Ok == item_ids_unique(items@),
            r is Ok ==> final(self)@.entries == restored_entries(items@),
            r is Err ==> final(self)@.entries == old(self)@.entries,
    {
        let n = items.len();
        let mut k: usize = 0;
        while k < n
            invariant
                n == items@.len(),
                k <= n,
                self@ == old(self)@,
                old(self)@.wf(),
                forall|a: int, b: int|
                    0 <= a < k && 0 <= b < n && a != b ==> #[trigger] items@[a].id@
                        != #[trigger] items@[b].id@,
            decreases n - k,
        {
            let mut l: usize = 0;
            while l < n
                invariant
                    n == items@.len(),
                    k < n,
                    l <= n,
                    self@ == old(self)@,
                    old(self)@.wf(),
                    forall|b: int| 0 <= b < l && b != k ==> items@[k as int].id@ != #[trigger] items@[b].id@,
                decreases n - l,
            {
                if l != k && items[l].id == items[k].id {
                    return Err(QueueError::DuplicateId(copy_string(&items[k].id)));
                }
                l = l + 1;
            }
            k = k + 1;
        }
        let ghost target = restored_entries(items@);
        let mut entries: Vec<QueueEntry> = Vec::new();
        let mut k: usize = 0;
        while k < n
            invariant
                n == items@.len(),
                k <= n,
                target == restored_entries(items@),
                entries@ == target.subrange(0, k as int),
                active_count(entries@) == 0,
                downloading_count(entries@) == 0,
            decreases n - k,
        {
            let mut item = items[k].snapshot();
            item.restore();
            let entry = QueueEntry { item, task: None };
            proof {
                lemma_count_push(entries@, entry, |e: QueueEntry| has_task(e));
                lemma_count_push(entries@, entry, |e: QueueEntry| is_downloading(e));
                assert(target.subrange(0, k + 1) =~= target.subrange(0, k as int).push(entry));
            }
            entries.push(entry);
            k = k + 1;
        }
        proof {
            assert(target.subrange(0, n as int) =~= target);
            assert forall|i: int, j: int|
                0 <= i < target.len() && 0 <= j < target.len() && i != j implies #[trigger] target[i].item.id@
                != #[trigger] target[j].item.id@ by {
                assert(target[i].item.id@ == items@[i].id@);
                assert(target[j].item.id@ == items@[j].id@);
            }
        }
        self.entries = entries;
        let start = !self.processing;
        self.processing = true;
        Ok(start)
    }
}

/// Under the invariant, and with tasks in flight within the cap, the jobs
/// that are Downloading at once never exceed the cap.
pub proof fn lemma_downloading_within_cap(v: QueueView)
    requires
        v.wf(),
        v.within_cap(),
    ensures
        downloading_count(v.entries) <= v.max_concurrent,
{
    lemma_downloading_le_active(v);
}

/// A step that follows the lifecycle graph never takes a Queued job straight
/// to Completed.
pub proof fn lemma_no_skip_to_completed(before: Seq<QueueEntry>, after: Seq<QueueEntry>)
    requires
        follows_graph(before, after),
    ensures
        forall|i: int|
            0 <= i < before.len() && before[i].item.status == DownloadStatus::Queued
                ==> #[trigger] after[i].item.status != DownloadStatus::Completed,
{
}

/// A raised cancellation signal makes a Downloading job Cancelled, whatever
/// the subprocess's exit.
pub proof fn lemma_cancel_wins(outcome: DownloadOutcome)
    ensures
        finished_status(DownloadStatus::Downloading, true, outcome) == DownloadStatus::Cancelled,
{
}

/// The message a timed-out attempt leaves on its job.
pub fn timeout_message() -> (r: String)
    ensures
        r@ == timeout_text(),
{
    String::from_str(
        "Download timed out after 30 minutes. The video may be too large or the connection too slow. Please try again or check your network connection.",
    )
}


} // verus!
