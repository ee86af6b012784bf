//! Jobs, their lifecycle states, and the per-attempt task that carries a
//! cancellation signal.
use vstd::prelude::*;
use crate::progress::Decimal;

verus! {

/// Where a job is in its lifecycle.
#[derive(Clone, Copy, Debug, PartialEq, Eq, Structural)]
pub enum DownloadStatus {
    Queued,
    Downloading,
    Paused,
    Completed,
    Failed,
    Cancelled,
}

/// Completed, Failed and Cancelled are final: nothing leaves them.
pub open spec fn is_terminal(s: DownloadStatus) -> bool {
    s == DownloadStatus::Completed || s == DownloadStatus::Failed || s == DownloadStatus::Cancelled
}

/// The edges of the lifecycle graph.
pub open spec fn can_transition(from: DownloadStatus, to: DownloadStatus) -> bool {
    match (from, to) {
        (DownloadStatus::Queued, DownloadStatus::Downloading) => true,
        (DownloadStatus::Downloading, DownloadStatus::Completed) => true,
        (DownloadStatus::Downloading, DownloadStatus::Cancelled) => true,
        (DownloadStatus::Downloading, DownloadStatus::Failed) => true,
        (DownloadStatus::Downloading, DownloadStatus::Paused) => true,
        (DownloadStatus::Queued, DownloadStatus::Paused) => true,
        (DownloadStatus::Paused, DownloadStatus::Queued) => true,
        (DownloadStatus::Queued, DownloadStatus::Cancelled) => true,
        (DownloadStatus::Paused, DownloadStatus::Cancelled) => true,
        _ => false,
    }
}

impl DownloadStatus {
    /// Whether the status is final.
    pub fn is_terminal(&self) -> (r: bool)
        ensures
            r == is_terminal(*self),
    {
        match self {
            DownloadStatus::Completed | DownloadStatus::Failed | DownloadStatus::Cancelled => true,
            _ => false,
        }
    }

    /// Whether the lifecycle graph has an edge from `self` to `to`.
    pub fn can_transition_to(&self, to: DownloadStatus) -> (r: bool)
        ensures
            r == can_transition(*self, to),
    {
        match (self, to) {
            (DownloadStatus::Queued, DownloadStatus::Downloading) => true,
            (DownloadStatus::Downloading, DownloadStatus::Completed) => true,
            (DownloadStatus::Downloading, DownloadStatus::Cancelled) => true,
            (DownloadStatus::Downloading, DownloadStatus::Failed) => true,
            (DownloadStatus::Downloading, DownloadStatus::Paused) => true,
            (DownloadStatus::Queued, DownloadStatus::Paused) => true,
            (DownloadStatus::Paused, DownloadStatus::Queued) => true,
            (DownloadStatus::Queued, DownloadStatus::Cancelled) => true,
            (DownloadStatus::Paused, DownloadStatus::Cancelled) => true,
            _ => false,
        }
    }
}

/// One queued unit of work. `progress` is a percentage, `speed` in bytes per
/// second, `eta` in seconds.
#[derive(Clone, Debug)]
pub struct DownloadItem {
    pub id: String,
    pub video_id: String,
    pub title: String,
    pub thumbnail: String,
    pub status: DownloadStatus,
    pub progress: Decimal,
    pub speed: u64,
    pub eta: u64,
    pub save_path: String,
    pub error: Option<String>,
    pub url: String,
    pub platform: String,
}

pub fn copy_string(s: &String) -> (r: String)
    ensures
        r == *s,
{
    s.clone()
}

pub fn copy_opt_string(s: &Option<String>) -> (r: Option<String>)
    ensures
        r == *s,
{
    match s {
        Some(v) => Some(v.clone()),
        None => None,
    }
}

/// The zero percentage.
pub open spec fn zero_percent() -> Decimal {
    Decimal { mantissa: 0, scale: 0 }
}

/// `item` with its progress, speed and ETA set to zero.
pub open spec fn with_progress_reset(item: DownloadItem) -> DownloadItem {
    DownloadItem { progress: zero_percent(), speed: 0, eta: 0, ..item }
}

/// What a persisted job becomes on load: one that was Downloading was
/// interrupted, and is Queued again from zero.
pub open spec fn restored(item: DownloadItem) -> DownloadItem {
    if item.status == DownloadStatus::Downloading {
        DownloadItem { status: DownloadStatus::Queued, ..with_progress_reset(item) }
    } else {
        item
    }
}

/// A job persisted while Downloading comes back Queued, with progress, speed
/// and ETA zero.
pub proof fn lemma_restore_interrupted(item: DownloadItem)
    requires
        item.status == DownloadStatus::Downloading,
    ensures
        restored(item).status == DownloadStatus::Queued,
        restored(item).progress == zero_percent(),
        restored(item).speed == 0,
        restored(item).eta == 0,
        restored(item).id == item.id,
{
}

impl DownloadItem {
    /// A copy of the item, field for field.
    pub fn snapshot(&self) -> (r: DownloadItem)
        ensures
            r == *self,
    {
        DownloadItem {
            id: copy_string(&self.id),
            video_id: copy_string(&self.video_id),
            title: copy_string(&self.title),
            thumbnail: copy_string(&self.thumbnail),
            status: self.status,
            progress: self.progress,
            speed: self.speed,
            eta: self.eta,
            save_path: copy_string(&self.save_path),
            error: copy_opt_string(&self.error),
            url: copy_string(&self.url),
            platform: copy_string(&self.platform),
        }
    }

    /// Sets progress, speed and ETA to zero.
    pub fn reset_progress(&mut self)
        ensures
            *final(self) == with_progress_reset(*old(self)),
    {
        self.progress = Decimal::whole(0);
        self.speed = 0;
        self.eta = 0;
    }

    /// Reinterprets a persisted item: Downloading becomes Queued with progress,
    /// speed and ETA zero; any other item is kept as it is.
    pub fn restore(&mut self)
        ensures
            *final(self) == restored(*old(self)),
    {
        if self.status == DownloadStatus::Downloading {
            self.status = DownloadStatus::Queued;
            self.reset_progress();
        }
    }
}

/// The execution context of one attempt at a job: a snapshot of the job and
/// a cancellation signal that, once raised, stays raised.
#[derive(Debug)]
pub struct DownloadTask {
    item: DownloadItem,
    cancelled: bool,
}

impl DownloadTask {
    pub closed spec fn spec_item(&self) -> DownloadItem {
        self.item
    }

    pub closed spec fn spec_cancelled(&self) -> bool {
        self.cancelled
    }

    /// A task for `item` whose signal is not raised.
    pub fn new(item: DownloadItem) -> (r: DownloadTask)
        ensures
            r.spec_item() == item,
            !r.spec_cancelled(),
    {
        DownloadTask { item, cancelled: false }
    }

    /// Whether the cancellation signal has been raised.
    pub fn is_cancelled(&self) -> (r: bool)
        ensures
            r == self.spec_cancelled(),
    {
        self.cancelled
    }

    /// Raises the cancellation signal; raising it again changes nothing.
    pub fn cancel(&mut self)
        ensures
            final(self).spec_cancelled(),
            final(self).spec_item() == old(self).spec_item(),
    {
        self.cancelled = true;
    }

    /// The job as it was when the attempt started.
    pub fn item(&self) -> (r: &DownloadItem)
        ensures
            *r == self.spec_item(),
    {
        &self.item
    }
}

} // verus!
