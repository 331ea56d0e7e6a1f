//! Batch runs: queued links downloaded one at a time, in queue order, with
//! each outcome recorded and no failure stopping the run.
//!
//! The run decides; the caller performs each download it hands out and
//! reports back whether it succeeded.
use vstd::prelude::*;
use vstd::string::*;
use crate::app::{names_host, DownloadError, SHORT_HOST, WATCH_HOST};
use crate::text::{contains, push_decimal, trim, trimmed};

verus! {

/// Progress of a batch run.
#[derive(Debug)]
pub struct BatchProgress {
    /// The 1-based position of the link handed out last; 0 before the first.
    pub current: usize,
    /// How many links the run holds.
    pub total: usize,
    /// The links that downloaded, in queue order.
    pub completed: Vec<String>,
    /// The links that failed, in queue order.
    pub failed: Vec<String>,
}

/// A batch run over a fixed queue of links.
#[derive(Debug)]
pub struct BatchRun {
    queue: Vec<String>,
    outcomes: Vec<bool>,
    progress: BatchProgress,
}

/// The links of `queue` whose outcome in `outcomes` is `wanted`, in order.
pub open spec fn picked(queue: Seq<String>, outcomes: Seq<bool>, wanted: bool) -> Seq<String>
    decreases outcomes.len(),
{
    if outcomes.len() == 0 {
        Seq::empty()
    } else if outcomes.last() == wanted {
        picked(queue, outcomes.drop_last(), wanted).push(queue[outcomes.len() - 1])
    } else {
        picked(queue, outcomes.drop_last(), wanted)
    }
}

proof fn lemma_picked_len(queue: Seq<String>, outcomes: Seq<bool>)
    ensures
        picked(queue, outcomes, true).len() + picked(queue, outcomes, false).len()
            == outcomes.len(),
    decreases outcomes.len(),
{
    if outcomes.len() > 0 {
        lemma_picked_len(queue, outcomes.drop_last());
    }
}

impl BatchRun {
    /// The links of the run, in download order.
    pub closed spec fn queue(&self) -> Seq<String> {
        self.queue@
    }

    /// The outcome of each link resolved so far (`true`: downloaded).
    pub closed spec fn outcomes(&self) -> Seq<bool> {
        self.outcomes@
    }

    /// The 1-based position of the link handed out last; 0 before the first.
    pub closed spec fn current(&self) -> nat {
        self.progress.current as nat
    }

    /// The links that downloaded, in queue order.
    pub closed spec fn completed(&self) -> Seq<String> {
        self.progress.completed@
    }

    /// The links that failed, in queue order.
    pub closed spec fn failed(&self) -> Seq<String> {
        self.progress.failed@
    }

    /// How many links the run has resolved.
    pub open spec fn processed(&self) -> nat {
        self.outcomes().len()
    }

    /// A link has been handed out and its outcome is not in yet.
    pub open spec fn busy(&self) -> bool {
        self.current() == self.processed() + 1
    }

    /// Every link is resolved.
    pub open spec fn done(&self) -> bool {
        self.processed() == self.queue().len()
    }

    /// The progress agrees with the queue and the outcomes recorded.
    pub closed spec fn wf(&self) -> bool {
        &&& self.progress.total == self.queue@.len()
        &&& self.outcomes@.len() <= self.progress.current <= self.queue@.len()
        &&& self.progress.current <= self.outcomes@.len() + 1
        &&& self.progress.completed@ == picked(self.queue@, self.outcomes@, true)
        &&& self.progress.failed@ == picked(self.queue@, self.outcomes@, false)
    }

    /// Counts and order of a run: the downloaded and the failed links are the
    /// queue's first `processed()` links split by outcome, in queue order,
    /// and together number `processed()`; `processed()` never passes the
    /// queue's length, and equals `current - 1` while a link is out.
    pub proof fn law_progress(&self)
        requires
            self.wf(),
        ensures
            self.completed() == picked(self.queue(), self.outcomes(), true),
            self.failed() == picked(self.queue(), self.outcomes(), false),
            self.completed().len() + self.failed().len() == self.processed(),
            self.processed() <= self.queue().len(),
            self.current() == self.processed() || self.current() == self.processed() + 1,
            self.current() <= self.queue().len(),
    {
        lemma_picked_len(self.queue@, self.outcomes@);
    }

    /// A run over `urls`, with nothing handed out yet.
    pub fn new(urls: Vec<String>) -> (r: Self)
        ensures
            r.wf(),
            r.queue() == urls@,
            r.outcomes() == Seq::<bool>::empty(),
            r.current() == 0,
    {
        let total = urls.len();
        BatchRun {
            queue: urls,
            outcomes: Vec::new(),
            progress: BatchProgress {
                current: 0,
                total,
                completed: Vec::new(),
                failed: Vec::new(),
            },
        }
    }

    /// The next link to download, or `None` once every link is resolved.
    /// Handing one out moves `current` to its position.
    pub fn next_job(&mut self) -> (r: Option<String>)
        requires
            old(self).wf(),
            !old(self).busy(),
        ensures
            final(self).wf(),
            final(self).queue() == old(self).queue(),
            final(self).outcomes() == old(self).outcomes(),
            match r {
                Some(url) => {
                    &&& !old(self).done()
                    &&& url == old(self).queue()[old(self).processed() as int]
                    &&& final(self).current() == old(self).processed() + 1
                    &&& final(self).busy()
                },
                None => old(self).done() && final(self).current() == old(self).current(),
            },
    {
        let n = self.outcomes.len();
        if n < self.queue.len() {
            self.progress.current = n + 1;
            Some(self.queue[n].clone())
        } else {
            None
        }
    }

    /// Records the outcome of the link handed out last.
    pub fn record(&mut self, succeeded: bool)
        requires
            old(self).wf(),
            old(self).busy(),
        ensures
            final(self).wf(),
            final(self).queue() == old(self).queue(),
            final(self).outcomes() == old(self).outcomes().push(succeeded),
            final(self).current() == old(self).current(),
            !final(self).busy(),
    {
        let n = self.outcomes.len();
        let url = self.queue[n].clone();
        self.outcomes.push(succeeded);
        if succeeded {
            self.progress.completed.push(url);
        } else {
            self.progress.failed.push(url);
        }
        assert(self.outcomes@.drop_last() =~= old(self).outcomes@);
    }

    /// Whether every link is resolved.
    pub fn is_done(&self) -> (r: bool)
        requires
            self.wf(),
        ensures
            r == self.done(),
    {
        self.outcomes.len() == self.queue.len()
    }

    /// The run's progress.
    pub fn progress(&self) -> (r: &BatchProgress)
        requires
            self.wf(),
        ensures
            r.current == self.current(),
            r.total == self.queue().len(),
            r.completed@ == self.completed(),
            r.failed@ == self.failed(),
    {
        &self.progress
    }

    /// The closing status line: how many links downloaded and how many failed.
    pub fn summary(&self) -> (r: String)
        ensures
            r@ == summary_text(self.completed().len(), self.failed().len()),
    {
        let mut s = String::from_str(BATCH_DONE);
        push_decimal(&mut s, self.progress.completed.len());
        s.append(BATCH_OK);
        push_decimal(&mut s, self.progress.failed.len());
        s.append(BATCH_FAILED);
        s
    }
}

/// Links waiting for a batch run, in the order they were confirmed.
#[derive(Debug)]
pub struct BatchQueue {
    urls: Vec<String>,
}

impl BatchQueue {
    /// The queued links, in order.
    pub closed spec fn urls(&self) -> Seq<String> {
        self.urls@
    }

    /// An empty queue.
    pub fn new() -> (r: Self)
        ensures
            r.urls() == Seq::<String>::empty(),
    {
        BatchQueue { urls: Vec::new() }
    }

    /// Adds `input`, trimmed, at the end of the queue. Blank input, or input
    /// that names no YouTube host, is refused and leaves the queue as it was;
    /// nothing else is checked.
    pub fn confirm(&mut self, input: &str) -> (r: Result<(), DownloadError>)
        ensures
            trimmed(input@).len() == 0 ==> r == Err::<(), DownloadError>(DownloadError::EmptyInput),
            trimmed(input@).len() > 0 && !names_host(trimmed(input@)) ==> r == Err::<
                (),
                DownloadError,
            >(DownloadError::InvalidHost),
            trimmed(input@).len() > 0 && names_host(trimmed(input@)) ==> r is Ok,
            r is Err ==> final(self).urls() == old(self).urls(),
            r is Ok ==> trimmed(input@).len() > 0 && names_host(trimmed(input@))
                && final(self).urls().len() == old(self).urls().len() + 1
                && final(self).urls().drop_last() == old(self).urls()
                && final(self).urls().last()@ == trimmed(input@),
    {
        let url = trim(input);
        if url.as_str().unicode_len() == 0 {
            return Err(DownloadError::EmptyInput);
        }
        if !contains(url.as_str(), WATCH_HOST) && !contains(url.as_str(), SHORT_HOST) {
            return Err(DownloadError::InvalidHost);
        }
        self.urls.push(url);
        assert(self.urls@.drop_last() =~= old(self).urls@);
        Ok(())
    }

    /// Empties the queue.
    pub fn clear(&mut self)
        ensures
            final(self).urls() == Seq::<String>::empty(),
    {
        self.urls = Vec::new();
    }

    /// How many links wait.
    pub fn len(&self) -> (r: usize)
        ensures
            r == self.urls().len(),
    {
        self.urls.len()
    }

    /// Starts a run over the queued links, leaving the queue empty.
    pub fn start_run(&mut self) -> (r: BatchRun)
        ensures
            r.wf(),
            r.queue() == old(self).urls(),
            r.outcomes() == Seq::<bool>::empty(),
            r.current() == 0,
            final(self).urls() == Seq::<String>::empty(),
    {
        let mut urls: Vec<String> = Vec::new();
        std::mem::swap(&mut urls, &mut self.urls);
        BatchRun::new(urls)
    }
}

/// Whether batch mode may be switched while `run` stands: only between runs,
/// never while one still has links to resolve.
pub fn may_toggle(run: &Option<BatchRun>) -> (r: bool)
    requires
        match run {
            Some(b) => b.wf(),
            None => true,
        },
    ensures
        r == match run {
            Some(b) => b.done(),
            None => true,
        },
{
    match run {
        Some(b) => b.is_done(),
        None => true,
    }
}

pub const BATCH_DONE: &'static str = "Batch complete: ";

pub const BATCH_OK: &'static str = " downloaded, ";

pub const BATCH_FAILED: &'static str = " failed";

/// The closing status line of a run with `ok` downloads and `bad` failures.
pub open spec fn summary_text(ok: nat, bad: nat) -> Seq<char> {
    BATCH_DONE@ + crate::text::decimal(ok) + BATCH_OK@ + crate::text::decimal(bad) + BATCH_FAILED@
}

} // verus!
