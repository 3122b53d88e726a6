use crate::database::Bangumi;
use crate::downloader::{
    rename_plan, select_files, DownloadFileEntry, DownloaderError, Failure, FileEntry, Rename,
    Renaming,
};
use crate::mikan::mikan_rss::{Episode, RssBangumi};
use crate::pipeline::{
    is_skipped, nothing_due_nothing_queued, plan, planned, Job, JobView, Settings,
};
use crate::title_parser::{ParseError, TitleGrammar};
use vstd::prelude::*;

verus! {

/// How long the engine is given to take a job in before it is asked about it.
pub const SETTLING_SECONDS: u64 = 3;

/// Where the work on the current job stands: each phase but the first and
/// the last two waits for the answer to the action that led into it.
#[derive(Debug, Clone, Copy, PartialEq, Eq, Structural)]
pub enum Phase {
    /// Nothing was asked for yet.
    Ready,
    /// The descriptor is being fetched.
    Fetching,
    /// The descriptor is being handed to the engine.
    Submitting,
    /// The engine is given time.
    Settling,
    /// The job's storage is being moved.
    Relocating,
    /// The job's files are being listed.
    Listing,
    /// A file is being renamed.
    Renaming,
    /// The job is being named.
    Naming,
    /// The release is being counted as fetched.
    Recording,
    /// A recipient is being told.
    Notifying,
    /// All jobs are done.
    Finished,
    /// The cycle was given up.
    Aborted,
}

/// Why a cycle was given up.
#[derive(Debug, Clone)]
pub enum Reason {
    /// A title could not be read.
    Title(ParseError),
    /// The job's files could not be told apart.
    Files(DownloaderError),
    /// A step outside failed.
    Outside,
    /// An event came that answers no action asked for.
    Unexpected,
}

/// The mathematical content of a `Reason`.
pub enum ReasonView {
    Title(ParseError),
    Files(Failure),
    Outside,
    Unexpected,
}

impl View for Reason {
    type V = ReasonView;

    open spec fn view(&self) -> ReasonView {
        match self {
            Reason::Title(e) => ReasonView::Title(*e),
            Reason::Files(e) => ReasonView::Files(e@),
            Reason::Outside => ReasonView::Outside,
            Reason::Unexpected => ReasonView::Unexpected,
        }
    }
}

/// What came back from outside.
#[derive(Debug, Clone)]
pub enum Event {
    /// The cycle is to begin.
    Start,
    /// The action asked for was carried out.
    Done,
    /// The action asked for failed.
    Failed,
    /// The descriptor was fetched; the engine will know the job by this id.
    Identified(String),
    /// The files of the job.
    Listed(Vec<DownloadFileEntry>),
}

/// The mathematical content of an `Event`.
pub enum EventView {
    Start,
    Done,
    Failed,
    Identified(Seq<char>),
    Listed(Seq<FileEntry>),
}

impl View for Event {
    type V = EventView;

    open spec fn view(&self) -> EventView {
        match self {
            Event::Start => EventView::Start,
            Event::Done => EventView::Done,
            Event::Failed => EventView::Failed,
            Event::Identified(id) => EventView::Identified(id@),
            Event::Listed(files) => EventView::Listed(files.deep_view()),
        }
    }
}

/// What is to be done outside next.
#[derive(Debug, Clone)]
pub enum Action {
    /// Fetch the descriptor at `url`, keep it at `path`, and read its id.
    Fetch { url: String, path: String },
    /// Hand the descriptor kept at `path` to the engine.
    Submit { path: String },
    /// Wait.
    Settle { seconds: u64 },
    /// Have the engine store the job under `dir`.
    Relocate { job_id: String, dir: String },
    /// Ask the engine for the job's files.
    ListFiles { job_id: String },
    /// Have the engine rename one file of the job.
    RenameFile { job_id: String, path: String, new_name: String },
    /// Have the engine show the job under `name`.
    RenameJob { job_id: String, name: String },
    /// Count the release as fetched for the series.
    Record { series: u32, hash: String },
    /// Tell a recipient.
    Notify { recipient: u64, text: String },
    /// Nothing is left to do.
    Finish,
    /// The cycle is given up.
    Abort(Reason),
}

/// The mathematical content of an `Action`.
pub enum ActionView {
    Fetch { url: Seq<char>, path: Seq<char> },
    Submit { path: Seq<char> },
    Settle { seconds: u64 },
    Relocate { job_id: Seq<char>, dir: Seq<char> },
    ListFiles { job_id: Seq<char> },
    RenameFile { job_id: Seq<char>, path: Seq<char>, new_name: Seq<char> },
    RenameJob { job_id: Seq<char>, name: Seq<char> },
    Record { series: u32, hash: Seq<char> },
    Notify { recipient: u64, text: Seq<char> },
    Finish,
    Abort(ReasonView),
}

impl View for Action {
    type V = ActionView;

    open spec fn view(&self) -> ActionView {
        match self {
            Action::Fetch { url, path } => ActionView::Fetch { url: url@, path: path@ },
            Action::Submit { path } => ActionView::Submit { path: path@ },
            Action::Settle { seconds } => ActionView::Settle { seconds: *seconds },
            Action::Relocate { job_id, dir } => ActionView::Relocate { job_id: job_id@, dir: dir@ },
            Action::ListFiles { job_id } => ActionView::ListFiles { job_id: job_id@ },
            Action::RenameFile { job_id, path, new_name } => ActionView::RenameFile {
                job_id: job_id@,
                path: path@,
                new_name: new_name@,
            },
            Action::RenameJob { job_id, name } => ActionView::RenameJob {
                job_id: job_id@,
                name: name@,
            },
            Action::Record { series, hash } => ActionView::Record { series: *series, hash: hash@ },
            Action::Notify { recipient, text } => ActionView::Notify {
                recipient: *recipient,
                text: text@,
            },
            Action::Finish => ActionView::Finish,
            Action::Abort(reason) => ActionView::Abort(reason@),
        }
    }
}

/// One poll of one series: the jobs laid out for it and how far the work
/// on them has come.
#[derive(Debug, Clone)]
pub struct Cycle {
    series: u32,
    recipients: Vec<u64>,
    jobs: Vec<Job>,
    broken: Option<ParseError>,
    position: usize,
    phase: Phase,
    step: usize,
    job_id: String,
    renames: Vec<Rename>,
    recorded: Vec<String>,
}

/// The mathematical content of a `Cycle`.
pub struct CycleView {
    /// The id of the series.
    pub series: u32,
    /// Whom to tell of each release filed.
    pub recipients: Seq<u64>,
    /// The jobs, the oldest release first.
    pub jobs: Seq<JobView>,
    /// The error that is to end the cycle once the jobs are done.
    pub broken: Option<ParseError>,
    /// How many jobs are done.
    pub position: int,
    pub phase: Phase,
    /// How many renames, or notices, of the current job are done.
    pub step: int,
    /// The engine's id of the current job.
    pub job_id: Seq<char>,
    /// The renames that the current job asks for.
    pub renames: Seq<Renaming>,
    /// The hashes counted as fetched in this cycle, in order.
    pub recorded: Seq<Seq<char>>,
}

/// What a recipient reads of a release that was filed.
pub open spec fn notice(save_name: Seq<char>) -> Seq<char> {
    save_name + " updated."@
}

impl CycleView {
    /// The job that is worked on.
    pub open spec fn job(self) -> JobView {
        self.jobs[self.position]
    }

    /// Whether the cycle still works on a job.
    pub open spec fn busy(self) -> bool {
        self.phase != Phase::Ready && self.phase != Phase::Finished && self.phase
            != Phase::Aborted
    }

    /// What every cycle keeps to: a job is at hand while one is worked on,
    /// and so is the rename or the recipient that an answer is awaited for.
    pub open spec fn consistent(self) -> bool {
        &&& 0 <= self.position <= self.jobs.len()
        &&& 0 <= self.step
        &&& self.busy() ==> self.position < self.jobs.len()
        &&& self.phase == Phase::Renaming ==> self.step < self.renames.len()
        &&& self.phase == Phase::Notifying ==> self.step < self.recipients.len()
    }

    /// Whether the hashes counted as fetched are those of the jobs done, in
    /// order: one for each job before the current one, and one for the
    /// current job from the moment its record was made.
    pub open spec fn accounted(self) -> bool {
        &&& self.recorded.len() <= self.jobs.len()
        &&& self.recorded.len() == self.position || self.recorded.len() == self.position + 1
        &&& self.phase == Phase::Notifying ==> self.recorded.len() == self.position + 1
        &&& self.phase != Phase::Notifying && self.phase != Phase::Aborted ==> self.recorded.len()
            == self.position
        &&& forall|k: int|
            0 <= k < self.recorded.len() ==> #[trigger] self.recorded[k] == self.jobs[k].feed_hash
    }

    /// The cycle given up.
    pub open spec fn aborted(self, reason: ReasonView) -> (CycleView, ActionView) {
        (CycleView { phase: Phase::Aborted, ..self }, ActionView::Abort(reason))
    }

    /// The next job is taken up, or the cycle ends: with the error that cut
    /// the queue short, if one did.
    pub open spec fn begin(self) -> (CycleView, ActionView) {
        if self.position < self.jobs.len() {
            (
                CycleView { phase: Phase::Fetching, ..self },
                ActionView::Fetch { url: self.job().torrent_url, path: self.job().torrent_path },
            )
        } else {
            match self.broken {
                Some(e) => self.aborted(ReasonView::Title(e)),
                None => (CycleView { phase: Phase::Finished, ..self }, ActionView::Finish),
            }
        }
    }

    /// The next rename is asked for; after the last, the job gets its name.
    pub open spec fn rename_next(self) -> (CycleView, ActionView) {
        if self.step < self.renames.len() {
            (
                CycleView { phase: Phase::Renaming, ..self },
                ActionView::RenameFile {
                    job_id: self.job_id,
                    path: self.renames[self.step].path,
                    new_name: self.renames[self.step].new_name,
                },
            )
        } else {
            (
                CycleView { phase: Phase::Naming, ..self },
                ActionView::RenameJob { job_id: self.job_id, name: self.job().save_name },
            )
        }
    }

    /// The next recipient is told; after the last, the job is done.
    pub open spec fn notify_next(self) -> (CycleView, ActionView) {
        if self.step < self.recipients.len() {
            (
                CycleView { phase: Phase::Notifying, ..self },
                ActionView::Notify {
                    recipient: self.recipients[self.step],
                    text: notice(self.job().save_name),
                },
            )
        } else {
            (CycleView { position: self.position + 1, step: 0, ..self }).begin()
        }
    }

    /// The state that follows on an event, and the action to take. A cycle
    /// that is over stays as it is. A failure outside, an event that does
    /// not answer the action asked for, and a state that is not consistent
    /// end the cycle. Else the work
    /// on a job goes step by step: fetch the descriptor, submit it, wait,
    /// relocate, list the files, rename each file of the plan, name the
    /// job, count the release as fetched, tell each recipient.
    pub open spec fn next(self, event: EventView) -> (CycleView, ActionView) {
        match (self.phase, event) {
            (Phase::Finished, _) => (self, ActionView::Finish),
            (Phase::Aborted, _) => (self, ActionView::Abort(ReasonView::Unexpected)),
            _ if !self.consistent() => self.aborted(ReasonView::Unexpected),
            (_, EventView::Failed) => self.aborted(ReasonView::Outside),
            (Phase::Ready, EventView::Start) => self.begin(),
            (Phase::Fetching, EventView::Identified(id)) => (
                CycleView { phase: Phase::Submitting, job_id: id, ..self },
                ActionView::Submit { path: self.job().torrent_path },
            ),
            (Phase::Submitting, EventView::Done) => (
                CycleView { phase: Phase::Settling, ..self },
                ActionView::Settle { seconds: SETTLING_SECONDS },
            ),
            (Phase::Settling, EventView::Done) => (
                CycleView { phase: Phase::Relocating, ..self },
                ActionView::Relocate { job_id: self.job_id, dir: self.job().save_dir },
            ),
            (Phase::Relocating, EventView::Done) => (
                CycleView { phase: Phase::Listing, ..self },
                ActionView::ListFiles { job_id: self.job_id },
            ),
            (Phase::Listing, EventView::Listed(files)) => match rename_plan(
                files,
                self.job().save_name,
            ) {
                Err(failure) => self.aborted(ReasonView::Files(failure)),
                Ok(plan) => (CycleView { renames: plan.renames, step: 0, ..self }).rename_next(),
            },
            (Phase::Renaming, EventView::Done) => (CycleView {
                step: self.step + 1,
                ..self
            }).rename_next(),
            (Phase::Naming, EventView::Done) => (
                CycleView { phase: Phase::Recording, ..self },
                ActionView::Record { series: self.series, hash: self.job().feed_hash },
            ),
            (Phase::Recording, EventView::Done) => (CycleView {
                recorded: self.recorded.push(self.job().feed_hash),
                step: 0,
                ..self
            }).notify_next(),
            (Phase::Notifying, EventView::Done) => (CycleView {
                step: self.step + 1,
                ..self
            }).notify_next(),
            _ => self.aborted(ReasonView::Unexpected),
        }
    }
}

impl View for Cycle {
    type V = CycleView;

    closed spec fn view(&self) -> CycleView {
        CycleView {
            series: self.series,
            recipients: self.recipients@,
            jobs: self.jobs.deep_view(),
            broken: self.broken,
            position: self.position as int,
            phase: self.phase,
            step: self.step as int,
            job_id: self.job_id@,
            renames: self.renames.deep_view(),
            recorded: self.recorded.deep_view(),
        }
    }
}

/// A cycle that has not begun.
pub open spec fn fresh(
    series: u32,
    recipients: Seq<u64>,
    jobs: Seq<JobView>,
    broken: Option<ParseError>,
) -> CycleView {
    CycleView {
        series,
        recipients,
        jobs,
        broken,
        position: 0,
        phase: Phase::Ready,
        step: 0,
        job_id: Seq::empty(),
        renames: Seq::empty(),
        recorded: Seq::empty(),
    }
}

impl Cycle {
    /// A cycle for the jobs laid out, ready to begin.
    pub fn new(series: u32, recipients: Vec<u64>, jobs: Vec<Job>, broken: Option<ParseError>) -> (r:
        Cycle)
        ensures
            r@ == fresh(series, recipients@, jobs.deep_view(), broken),
    {
        let r = Cycle {
            series,
            recipients,
            jobs,
            broken,
            position: 0,
            phase: Phase::Ready,
            step: 0,
            job_id: String::new(),
            renames: Vec::new(),
            recorded: Vec::new(),
        };
        assert(r.renames.deep_view() =~= Seq::<Renaming>::empty());
        assert(r.recorded.deep_view() =~= Seq::<Seq<char>>::empty());
        r
    }

    /// Where the work stands.
    pub fn phase(&self) -> (r: Phase)
        ensures
            r == self@.phase,
    {
        self.phase
    }

    /// How many jobs are done.
    pub fn position(&self) -> (r: usize)
        ensures
            r == self@.position,
    {
        self.position
    }

    /// How many jobs the cycle has.
    pub fn job_count(&self) -> (r: usize)
        ensures
            r == self@.jobs.len(),
    {
        self.jobs.len()
    }

    /// The job at place `i`.
    pub fn job(&self, i: usize) -> (r: Option<&Job>)
        ensures
            match r {
                Some(job) => i < self@.jobs.len() && job.deep_view() == self@.jobs[i as int],
                None => i >= self@.jobs.len(),
            },
    {
        if i < self.jobs.len() {
            Some(&self.jobs[i])
        } else {
            None
        }
    }

    /// How many releases were counted as fetched in this cycle.
    pub fn recorded_count(&self) -> (r: usize)
        ensures
            r == self@.recorded.len(),
    {
        self.recorded.len()
    }

    /// Whether the hash was counted as fetched in this cycle.
    pub fn has_recorded(&self, hash: &str) -> (b: bool)
        ensures
            b == self@.recorded.contains(hash@),
    {
        crate::database::holds_hash(&self.recorded, hash)
    }

    /// Whether the cycle is over, one way or the other.
    pub fn is_over(&self) -> (b: bool)
        ensures
            b == (self@.phase == Phase::Finished || self@.phase == Phase::Aborted),
    {
        match self.phase {
            Phase::Finished => true,
            Phase::Aborted => true,
            _ => false,
        }
    }

    fn is_busy(&self) -> (b: bool)
        ensures
            b == self@.busy(),
    {
        match self.phase {
            Phase::Ready => false,
            Phase::Finished => false,
            Phase::Aborted => false,
            _ => true,
        }
    }

    fn is_consistent(&self) -> (b: bool)
        ensures
            b == self@.consistent(),
    {
        let renaming = match self.phase {
            Phase::Renaming => true,
            _ => false,
        };
        let notifying = match self.phase {
            Phase::Notifying => true,
            _ => false,
        };
        self.position <= self.jobs.len() && (!self.is_busy() || self.position < self.jobs.len())
            && (!renaming || self.step < self.renames.len()) && (!notifying || self.step
            < self.recipients.len())
    }

    fn abort(self, reason: Reason) -> (r: (Cycle, Action))
        ensures
            (r.0@, r.1@) == self@.aborted(reason@),
    {
        (Cycle { phase: Phase::Aborted, ..self }, Action::Abort(reason))
    }

    fn begin(self) -> (r: (Cycle, Action))
        requires
            self@.position <= self@.jobs.len(),
        ensures
            (r.0@, r.1@) == self@.begin(),
    {
        if self.position < self.jobs.len() {
            let action = Action::Fetch {
                url: self.jobs[self.position].torrent_url.clone(),
                path: self.jobs[self.position].torrent_path.clone(),
            };
            (Cycle { phase: Phase::Fetching, ..self }, action)
        } else {
            match self.broken {
                Some(e) => self.abort(Reason::Title(e)),
                None => (Cycle { phase: Phase::Finished, ..self }, Action::Finish),
            }
        }
    }

    fn rename_next(self) -> (r: (Cycle, Action))
        requires
            self@.position < self@.jobs.len(),
        ensures
            (r.0@, r.1@) == self@.rename_next(),
    {
        if self.step < self.renames.len() {
            let action = Action::RenameFile {
                job_id: self.job_id.clone(),
                path: self.renames[self.step].path.clone(),
                new_name: self.renames[self.step].new_name.clone(),
            };
            (Cycle { phase: Phase::Renaming, ..self }, action)
        } else {
            let action = Action::RenameJob {
                job_id: self.job_id.clone(),
                name: self.jobs[self.position].save_name.clone(),
            };
            (Cycle { phase: Phase::Naming, ..self }, action)
        }
    }

    fn notify_next(self) -> (r: (Cycle, Action))
        requires
            self@.position < self@.jobs.len(),
        ensures
            (r.0@, r.1@) == self@.notify_next(),
    {
        if self.step < self.recipients.len() {
            let mut text = self.jobs[self.position].save_name.clone();
            text.append(" updated.");
            let action = Action::Notify { recipient: self.recipients[self.step], text };
            (Cycle { phase: Phase::Notifying, ..self }, action)
        } else {
            assert(self.position < self.jobs.len());
            let position: usize = self.position + 1;
            (Cycle { position, step: 0, ..self }).begin()
        }
    }

    /// Takes the event in and says what is to be done next.
    pub fn advance(self, event: Event) -> (r: (Cycle, Action))
        ensures
            (r.0@, r.1@) == self@.next(event@),
    {
        match self.phase {
            Phase::Finished => {
                return (self, Action::Finish);
            },
            Phase::Aborted => {
                return (self, Action::Abort(Reason::Unexpected));
            },
            _ => {},
        }
        if !self.is_consistent() {
            return self.abort(Reason::Unexpected);
        }
        match (self.phase, event) {
            (_, Event::Failed) => self.abort(Reason::Outside),
            (Phase::Ready, Event::Start) => self.begin(),
            (Phase::Fetching, Event::Identified(id)) => {
                let action = Action::Submit { path: self.jobs[self.position].torrent_path.clone() };
                (Cycle { phase: Phase::Submitting, job_id: id, ..self }, action)
            },
            (Phase::Submitting, Event::Done) => (
                Cycle { phase: Phase::Settling, ..self },
                Action::Settle { seconds: SETTLING_SECONDS },
            ),
            (Phase::Settling, Event::Done) => {
                let action = Action::Relocate {
                    job_id: self.job_id.clone(),
                    dir: self.jobs[self.position].save_dir.clone(),
                };
                (Cycle { phase: Phase::Relocating, ..self }, action)
            },
            (Phase::Relocating, Event::Done) => {
                let action = Action::ListFiles { job_id: self.job_id.clone() };
                (Cycle { phase: Phase::Listing, ..self }, action)
            },
            (Phase::Listing, Event::Listed(files)) => {
                match select_files(&files, self.jobs[self.position].save_name.as_str()) {
                    Err(e) => self.abort(Reason::Files(e)),
                    Ok(plan) => (Cycle { renames: plan.renames, step: 0, ..self }).rename_next(),
                }
            },
            (Phase::Renaming, Event::Done) => {
                assert(self.step < self.renames.len());
                let step: usize = self.step + 1;
                (Cycle { step, ..self }).rename_next()
            },
            (Phase::Naming, Event::Done) => {
                let action = Action::Record {
                    series: self.series,
                    hash: self.jobs[self.position].feed_hash.clone(),
                };
                (Cycle { phase: Phase::Recording, ..self }, action)
            },
            (Phase::Recording, Event::Done) => {
                let mut recorded = self.recorded;
                let ghost before = recorded.deep_view();
                recorded.push(self.jobs[self.position].feed_hash.clone());
                assert(recorded.deep_view() =~= before.push(self@.job().feed_hash));
                (Cycle { recorded, step: 0, ..self }).notify_next()
            },
            (Phase::Notifying, Event::Done) => {
                assert(self.step < self.recipients.len());
                let step: usize = self.step + 1;
                (Cycle { step, ..self }).notify_next()
            },
            _ => self.abort(Reason::Unexpected),
        }
    }
}

/// Sets up the poll of one series: lays out the jobs for the entries of its
/// feed that are due and hands back the cycle, ready to begin. The words
/// that leave an entry out are those of the series' own record.
pub fn update_rss(
    grammar: &TitleGrammar,
    series: &Bangumi,
    settings: &Settings,
    feed: &RssBangumi,
) -> (r: Cycle)
    ensures
        ({
            let queue = planned(
                feed@.items,
                series@.title,
                series@.downloaded,
                series@.not_contains,
                settings.tmp_dir@,
                settings.lib_dir@,
            );
            r@ == fresh(series.id, settings.user_ids@, queue.jobs, queue.broken)
        }),
{
    let (jobs, broken) = plan(
        grammar,
        series,
        settings.tmp_dir.as_str(),
        settings.lib_dir.as_str(),
        feed,
    );
    Cycle::new(series.id, settings.user_ids.clone(), jobs, broken)
}

/// Whether an action calls on the download engine.
pub open spec fn calls_engine(action: ActionView) -> bool {
    action is Submit || action is Relocate || action is ListFiles || action is RenameFile
        || action is RenameJob
}

/// A fresh cycle is consistent, and every step keeps a cycle consistent.
pub proof fn cycle_stays_consistent(c: CycleView, event: EventView)
    requires
        c.consistent(),
    ensures
        c.next(event).0.consistent(),
        fresh(c.series, c.recipients, c.jobs, c.broken).consistent(),
{
}

/// A release is counted as fetched only once it is placed: the request to
/// record it answers the naming of the job, which comes after all renames,
/// and names the hash that the feed gave for that job. The hashes counted
/// in a cycle only grow, and only by that hash, once the record was made.
pub proof fn recorded_after_placement(c: CycleView, event: EventView)
    ensures
        c.next(event).1 is Record ==> {
            &&& c.phase == Phase::Naming
            &&& event is Done
            &&& c.next(event).1 == (ActionView::Record {
                series: c.series,
                hash: c.job().feed_hash,
            })
        },
        c.next(event).0.recorded == c.recorded || {
            &&& c.phase == Phase::Recording
            &&& event is Done
            &&& c.next(event).0.recorded == c.recorded.push(c.job().feed_hash)
        },
        c.phase != Phase::Naming ==> !(c.next(event).0.phase == Phase::Recording),
{
}

/// Each job that was placed is counted once: from a fresh cycle on, the
/// hashes counted as fetched are at every step those of the jobs done, in
/// the order of the queue.
pub proof fn each_job_counted_once(c: CycleView, event: EventView)
    requires
        c.consistent(),
        c.accounted(),
    ensures
        c.next(event).0.accounted(),
        fresh(c.series, c.recipients, c.jobs, c.broken).accounted(),
{
    let after = c.next(event).0;
    if after.recorded != c.recorded {
        assert(after.recorded == c.recorded.push(c.job().feed_hash));
        assert forall|k: int| 0 <= k < after.recorded.len() implies #[trigger] after.recorded[k]
            == after.jobs[k].feed_hash by {
            if k < c.recorded.len() {
                assert(after.recorded[k] == c.recorded[k]);
            }
        }
    }
}

/// Any failure outside ends the cycle: nothing more is counted as fetched,
/// and no event brings a cycle that is over to act again.
pub proof fn failure_ends_cycle(c: CycleView, event: EventView, later: EventView)
    requires
        event is Failed,
    ensures
        c.phase != Phase::Finished ==> c.next(event).0.phase == Phase::Aborted,
        c.phase != Phase::Finished ==> c.next(event).1 is Abort,
        c.next(event).0.recorded == c.recorded,
        c.next(event).0.next(later).0 == c.next(event).0,
        !calls_engine(c.next(event).0.next(later).1),
        !(c.next(event).0.next(later).1 is Record),
{
}

/// The jobs are worked on in the order of the queue, each at most once: a
/// step leaves the queue as it is and moves on by one job at most; a
/// descriptor is fetched for the job that the cycle then stands at, either
/// at the start or right after the job before it was done; and the engine
/// is called on for that job only.
pub proof fn jobs_taken_in_order(c: CycleView, event: EventView)
    requires
        c.consistent(),
    ensures
        c.next(event).0.jobs == c.jobs,
        c.position <= c.next(event).0.position <= c.position + 1,
        c.next(event).1 is Fetch ==> {
            let after = c.next(event).0;
            &&& after.position < after.jobs.len()
            &&& c.next(event).1 == (ActionView::Fetch {
                url: after.job().torrent_url,
                path: after.job().torrent_path,
            })
            &&& (after.position == c.position) == (c.phase == Phase::Ready)
        },
        calls_engine(c.next(event).1) ==> {
            &&& c.next(event).0.position == c.position
            &&& c.position < c.jobs.len()
            &&& c.busy()
        },
{
}

/// Whatever is asked for outside is asked for the job at which the cycle
/// then stands: its descriptor is fetched and submitted, its directory and
/// name are given, its hash is recorded, and its name is told. With the
/// order of the queue and the one-by-one advance of the position, the work
/// at place `k` is that of the job at place `k`, and it is over before the
/// next begins.
pub proof fn actions_speak_of_current_job(c: CycleView, event: EventView)
    requires
        c.consistent(),
    ensures
        ({
            let after = c.next(event).0;
            let job = after.job();
            match c.next(event).1 {
                ActionView::Fetch { url, path } => {
                    &&& after.position < after.jobs.len()
                    &&& url == job.torrent_url
                    &&& path == job.torrent_path
                },
                ActionView::Submit { path } => {
                    &&& after.position < after.jobs.len()
                    &&& path == job.torrent_path
                },
                ActionView::Relocate { job_id, dir } => {
                    &&& after.position < after.jobs.len()
                    &&& job_id == after.job_id
                    &&& dir == job.save_dir
                },
                ActionView::ListFiles { job_id } => {
                    &&& after.position < after.jobs.len()
                    &&& job_id == after.job_id
                },
                ActionView::RenameFile { job_id, path, new_name } => {
                    &&& after.position < after.jobs.len()
                    &&& job_id == after.job_id
                    &&& after.step < after.renames.len()
                    &&& path == after.renames[after.step].path
                    &&& new_name == after.renames[after.step].new_name
                },
                ActionView::RenameJob { job_id, name } => {
                    &&& after.position < after.jobs.len()
                    &&& job_id == after.job_id
                    &&& name == job.save_name
                },
                ActionView::Record { series, hash } => {
                    &&& after.position < after.jobs.len()
                    &&& series == after.series
                    &&& hash == job.feed_hash
                },
                ActionView::Notify { recipient, text } => {
                    &&& after.position < after.jobs.len()
                    &&& after.step < after.recipients.len()
                    &&& recipient == after.recipients[after.step]
                    &&& text == notice(job.save_name)
                },
                ActionView::Settle { seconds } => seconds == SETTLING_SECONDS,
                ActionView::Finish => true,
                ActionView::Abort(_) => true,
            }
        }),
{
}

/// Polling again changes nothing: where every entry of the feed is passed
/// over, as it is where each hash is counted as fetched already, the cycle
/// ends at once, and the engine is not called on.
pub proof fn replay_asks_nothing(
    items: Seq<Episode>,
    title: Seq<char>,
    fetched: Seq<Seq<char>>,
    excluded: Seq<Seq<char>>,
    tmp_dir: Seq<char>,
    lib_dir: Seq<char>,
    series: u32,
    recipients: Seq<u64>,
    event: EventView,
)
    requires
        forall|i: int| 0 <= i < items.len() ==> is_skipped(#[trigger] items[i], excluded, fetched),
    ensures
        ({
            let queue = planned(items, title, fetched, excluded, tmp_dir, lib_dir);
            let cycle = fresh(series, recipients, queue.jobs, queue.broken);
            &&& queue.jobs.len() == 0
            &&& cycle.next(EventView::Start) == (
                CycleView { phase: Phase::Finished, ..cycle },
                ActionView::Finish,
            )
            &&& !calls_engine(cycle.next(event).1)
            &&& !(cycle.next(event).1 is Fetch)
        }),
{
    nothing_due_nothing_queued(
        items,
        items.len() as int,
        title,
        fetched,
        excluded,
        tmp_dir,
        lib_dir,
    );
}

} // verus!
