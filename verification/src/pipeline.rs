//! One deployment, step by step. The library decides what is done next and
//! what each outcome means; whoever drives it performs the action (a request,
//! an unpacking, file operations) and reports what came of it.

use crate::plan::{
    hoist_ops, hoist_plan, listed_kinds, listed_names, path1, path2, publish_ops, publish_plan,
    sole_directory, wrapper_of, DirEntry, LayoutError,
};
use crate::queue::{DeploymentInformation, DeploymentView};
use crate::status::{is_success, reports_success};
use crate::text::join3;
use crate::tree::{path_view, plan_view, FsOp, FsOpView};
use vstd::prelude::*;
use vstd::string::*;

verus! {

/// Why a deployment failed.
#[derive(Debug, Clone, Copy, PartialEq, Eq, Structural)]
pub enum JobError {
    /// The archive could not be requested or its transfer broke off.
    Transport,
    /// Fetching and unpacking the archive took longer than allowed.
    TimedOut,
    /// The platform answered the request for the archive with this status,
    /// which is not a success.
    FetchRefused(u16),
    /// The archive is not a well-formed compressed tar stream.
    CorruptArchive,
    /// The archive does not hold exactly one directory at its top.
    Layout(LayoutError),
    /// A file operation failed; the site is as it was before the deployment,
    /// or as far as its removal got.
    Filesystem,
    /// The old site was removed and the new content could not be put in its
    /// place: nothing is served under the site's name.
    SiteAbsent,
    /// The driver reported something that the step in progress does not end
    /// in.
    Unexpected,
}

impl JobError {
    /// Whether the same request may succeed when its producer makes it
    /// again: a failure of the network may pass, every other failure lies in
    /// the request, the archive or the file system. The worker itself never
    /// tries again.
    pub fn is_retryable(&self) -> (retryable: bool)
        ensures
            retryable == (*self == JobError::Transport),
    {
        match self {
            JobError::Transport => true,
            _ => false,
        }
    }
}

/// What went wrong with an action, as its driver reports it.
#[derive(Debug, Clone, Copy, PartialEq, Eq, Structural)]
pub enum Fault {
    /// The network.
    Transport,
    /// The time allowed for the action ran out.
    TimedOut,
    /// The data: a broken compression stream or archive.
    Corrupt,
    /// The file system.
    Io,
}

/// What came of the last action.
pub enum Event {
    /// The action was carried out.
    Done,
    /// The action failed.
    Failed(Fault),
    /// The platform answered the request with this status.
    Status(u16),
    /// The entries of the directory that was to be listed.
    Entries(Vec<DirEntry>),
    /// Whether there is an entry at the path that was to be probed.
    Exists(bool),
    /// Of the operations of a plan the first `completed` were carried out and
    /// the next one failed.
    Stopped { completed: usize },
}

/// An outcome, with a listing as the names and the kinds of its entries.
pub enum EventView {
    Done,
    Failed(Fault),
    Status(u16),
    Entries { names: Seq<Seq<char>>, kinds: Seq<bool> },
    Exists(bool),
    Stopped { completed: nat },
}

impl View for Event {
    type V = EventView;

    open spec fn view(&self) -> EventView {
        match *self {
            Event::Done => EventView::Done,
            Event::Failed(fault) => EventView::Failed(fault),
            Event::Status(code) => EventView::Status(code),
            Event::Entries(listing) => EventView::Entries {
                names: listed_names(listing@),
                kinds: listed_kinds(listing@),
            },
            Event::Exists(exists) => EventView::Exists(exists),
            Event::Stopped { completed } => EventView::Stopped { completed: completed as nat },
        }
    }
}

/// What the driver is to do next. Paths are relative to the directory that
/// holds the sites.
pub enum Action {
    /// Remove the entry at `path` with all below it, if there is one.
    Clear { path: Vec<String> },
    /// Request `url` with `bearer` as the bearer credential, and report the
    /// status of the answer. From here to the end of the unpacking no more
    /// than `FETCH_TIMEOUT_SECS` may pass.
    Fetch { url: String, bearer: String },
    /// Decompress the body of the answer as it arrives and unpack the archive
    /// in it into the directory `into`, keeping the paths and the modes that
    /// the archive gives.
    Unpack { into: Vec<String> },
    /// List the entries of the directory at `path`.
    List { path: Vec<String> },
    /// Carry out the operations of `plan` in order, up to the first that
    /// fails.
    Apply { plan: Vec<FsOp> },
    /// Report whether there is an entry at `path`.
    Probe { path: Vec<String> },
    /// Nothing more: the deployment has ended with `result`.
    Finish { result: Result<(), JobError> },
}

/// An action, with its texts and paths as sequences.
pub enum ActionView {
    Clear { path: Seq<Seq<char>> },
    Fetch { url: Seq<char>, bearer: Seq<char> },
    Unpack { into: Seq<Seq<char>> },
    List { path: Seq<Seq<char>> },
    Apply { plan: Seq<FsOpView> },
    Probe { path: Seq<Seq<char>> },
    Finish { result: Result<(), JobError> },
}

impl View for Action {
    type V = ActionView;

    open spec fn view(&self) -> ActionView {
        match *self {
            Action::Clear { path } => ActionView::Clear { path: path_view(path@) },
            Action::Fetch { url, bearer } => ActionView::Fetch { url: url@, bearer: bearer@ },
            Action::Unpack { into } => ActionView::Unpack { into: path_view(into@) },
            Action::List { path } => ActionView::List { path: path_view(path@) },
            Action::Apply { plan } => ActionView::Apply { plan: plan_view(plan@) },
            Action::Probe { path } => ActionView::Probe { path: path_view(path@) },
            Action::Finish { result } => ActionView::Finish { result },
        }
    }
}

/// How far a deployment has come: each stage names the action whose outcome
/// is awaited.
#[derive(Debug, Clone, Copy)]
pub enum Stage {
    /// Leftovers of an earlier deployment are being removed from the staging
    /// directory.
    Clearing,
    /// The archive is being requested.
    Fetching,
    /// The archive is being unpacked into the staging directory.
    Unpacking,
    /// The staging directory is being listed.
    ListingTop,
    /// The wrapping directory is being listed.
    ListingWrapper,
    /// The content is being lifted out of the wrapping directory.
    Hoisting,
    /// The site's place is being probed.
    Probing,
    /// The staged content is being put in the site's place.
    Publishing { had_site: bool },
    /// The staging directory is being removed after a failure.
    Cleaning(JobError),
    /// The deployment has ended.
    Finished(Result<(), JobError>),
}

/// Seconds that the request for an archive and its unpacking may take
/// together. A deployment that takes longer is given up, so that one slow
/// transfer does not hold up the deployments behind it.
pub const FETCH_TIMEOUT_SECS: u64 = 600;

/// The name of the staging directory, as text.
pub open spec fn staging_text() -> Seq<char> {
    "staging"@
}

/// The name of the directory that holds the site of `domain`.
pub open spec fn site_text(domain: Seq<char>, root_domain: Seq<char>) -> Seq<char> {
    domain + "."@ + root_domain
}

/// The address of the archive of a repository at a commit.
pub open spec fn tarball_url_text(full_name: Seq<char>, commit_id: Seq<char>) -> Seq<char> {
    "https://github.com/"@ + full_name + "/tarball/"@ + commit_id
}

/// The name of the staging directory.
pub fn staging_name() -> (name: String)
    ensures
        name@ == staging_text(),
{
    String::from_str("staging")
}

/// The name of the directory that holds the site of `domain`.
pub fn site_root_name(domain: &str, root_domain: &str) -> (name: String)
    ensures
        name@ == site_text(domain@, root_domain@),
{
    join3(domain, ".", root_domain)
}

/// The address of the archive of a repository at a commit.
pub fn tarball_url(full_name: &str, commit_id: &str) -> (url: String)
    ensures
        url@ == tarball_url_text(full_name@, commit_id@),
{
    let mut url = String::from_str("https://github.com/");
    url.append(full_name);
    url.append("/tarball/");
    url.append(commit_id);
    url
}

/// No site is ever kept in the staging directory: the name of a site holds a
/// dot and the name of the staging directory holds none.
pub proof fn lemma_staging_is_no_site(domain: Seq<char>, root_domain: Seq<char>)
    ensures
        site_text(domain, root_domain) != staging_text(),
{
    reveal_strlit("staging");
    reveal_strlit(".");
    let site = site_text(domain, root_domain);
    let dot = domain.len() as int;
    assert(site[dot] == '.');
    if site == staging_text() {
        assert(site.len() == 7);
        assert(staging_text()[dot] != '.');
    }
}

/// A deployment in progress.
pub struct JobRun {
    job: DeploymentInformation,
    site: String,
    wrapper: String,
    stage: Stage,
}

/// A deployment in progress, as plain values: the request, the name of the
/// site's directory, the name of the wrapping directory once it is known
/// (empty before), and the stage.
pub struct JobRunView {
    pub job: DeploymentView,
    pub site: Seq<char>,
    pub wrapper: Seq<char>,
    pub stage: Stage,
}

impl View for JobRun {
    type V = JobRunView;

    closed spec fn view(&self) -> JobRunView {
        JobRunView { job: self.job@, site: self.site@, wrapper: self.wrapper@, stage: self.stage }
    }
}

impl JobRunView {
    /// The same deployment at another stage.
    pub open spec fn at(self, stage: Stage) -> JobRunView {
        JobRunView { stage, ..self }
    }
}

/// The state of a deployment that has just been taken up.
pub open spec fn begun(job: DeploymentView, root_domain: Seq<char>) -> JobRunView {
    JobRunView {
        job,
        site: site_text(job.domain, root_domain),
        wrapper: Seq::empty(),
        stage: Stage::Clearing,
    }
}

/// The action that removes the staging directory.
pub open spec fn clear_staging() -> ActionView {
    ActionView::Clear { path: seq![staging_text()] }
}

/// The failure that an outcome stands for where it is not the one that the
/// stage ends in.
pub open spec fn event_error(event: EventView) -> JobError {
    match event {
        EventView::Failed(Fault::Transport) => JobError::Transport,
        EventView::Failed(Fault::TimedOut) => JobError::TimedOut,
        EventView::Failed(Fault::Corrupt) => JobError::CorruptArchive,
        EventView::Failed(Fault::Io) => JobError::Filesystem,
        EventView::Stopped { completed } => JobError::Filesystem,
        _ => JobError::Unexpected,
    }
}

/// The failure that an outcome of the publishing plan stands for. Where a
/// site was there and its removal was carried out, or where it is not known
/// how far the plan came, the site counts as absent.
pub open spec fn publish_error(had_site: bool, event: EventView) -> JobError {
    match event {
        EventView::Stopped { completed } => if had_site && completed >= 1 {
            JobError::SiteAbsent
        } else {
            JobError::Filesystem
        },
        _ => if had_site {
            JobError::SiteAbsent
        } else {
            event_error(event)
        },
    }
}

/// A deployment ends with `result`.
pub open spec fn finished(run: JobRunView, result: Result<(), JobError>) -> (JobRunView, ActionView) {
    (run.at(Stage::Finished(result)), ActionView::Finish { result })
}

/// A deployment is given up with `error`: the staging directory is removed
/// before the deployment ends.
pub open spec fn abandoned(run: JobRunView, error: JobError) -> (JobRunView, ActionView) {
    (run.at(Stage::Cleaning(error)), clear_staging())
}

/// The next state of a deployment and the next action, given the outcome of
/// the action before.
pub open spec fn step(run: JobRunView, event: EventView) -> (JobRunView, ActionView) {
    match run.stage {
        Stage::Clearing => match event {
            EventView::Done => (
                run.at(Stage::Fetching),
                ActionView::Fetch {
                    url: tarball_url_text(run.job.full_name, run.job.commit_id),
                    bearer: run.job.token,
                },
            ),
            _ => finished(run, Err(event_error(event))),
        },
        Stage::Fetching => match event {
            EventView::Status(status) => if is_success(status) {
                (run.at(Stage::Unpacking), ActionView::Unpack { into: seq![staging_text()] })
            } else {
                finished(run, Err(JobError::FetchRefused(status)))
            },
            _ => finished(run, Err(event_error(event))),
        },
        Stage::Unpacking => match event {
            EventView::Done => (
                run.at(Stage::ListingTop),
                ActionView::List { path: seq![staging_text()] },
            ),
            _ => abandoned(run, event_error(event)),
        },
        Stage::ListingTop => match event {
            EventView::Entries { names, kinds } => match wrapper_of(names, kinds) {
                Ok(wrapper) => (
                    JobRunView { wrapper, stage: Stage::ListingWrapper, ..run },
                    ActionView::List { path: seq![staging_text(), wrapper] },
                ),
                Err(e) => abandoned(run, JobError::Layout(e)),
            },
            _ => abandoned(run, event_error(event)),
        },
        Stage::ListingWrapper => match event {
            EventView::Entries { names, kinds } => (
                run.at(Stage::Hoisting),
                ActionView::Apply { plan: hoist_ops(staging_text(), run.wrapper, names) },
            ),
            _ => abandoned(run, event_error(event)),
        },
        Stage::Hoisting => match event {
            EventView::Done => (run.at(Stage::Probing), ActionView::Probe { path: seq![run.site] }),
            _ => abandoned(run, event_error(event)),
        },
        Stage::Probing => match event {
            EventView::Exists(had_site) => (
                run.at(Stage::Publishing { had_site }),
                ActionView::Apply { plan: publish_ops(staging_text(), run.site, had_site) },
            ),
            _ => abandoned(run, event_error(event)),
        },
        Stage::Publishing { had_site } => match event {
            EventView::Done => finished(run, Ok(())),
            _ => abandoned(run, publish_error(had_site, event)),
        },
        Stage::Cleaning(error) => finished(run, Err(error)),
        Stage::Finished(result) => finished(run, result),
    }
}

/// The failure that an outcome stands for where it is not the one that the
/// stage ends in.
fn error_of(event: &Event) -> (error: JobError)
    ensures
        error == event_error(event@),
{
    match event {
        Event::Failed(Fault::Transport) => JobError::Transport,
        Event::Failed(Fault::TimedOut) => JobError::TimedOut,
        Event::Failed(Fault::Corrupt) => JobError::CorruptArchive,
        Event::Failed(Fault::Io) => JobError::Filesystem,
        Event::Stopped { completed } => JobError::Filesystem,
        _ => JobError::Unexpected,
    }
}

/// The failure that an outcome of the publishing plan stands for.
fn publish_error_of(had_site: bool, event: &Event) -> (error: JobError)
    ensures
        error == publish_error(had_site, event@),
{
    match event {
        Event::Stopped { completed } => if had_site && *completed >= 1 {
            JobError::SiteAbsent
        } else {
            JobError::Filesystem
        },
        _ => if had_site {
            JobError::SiteAbsent
        } else {
            error_of(event)
        },
    }
}

/// The names of a listing, in its order.
fn names_of(listing: &Vec<DirEntry>) -> (names: Vec<String>)
    ensures
        path_view(names@) == listed_names(listing@),
{
    let mut names: Vec<String> = Vec::new();
    let mut i: usize = 0;
    while i < listing.len()
        invariant
            i <= listing.len(),
            names@.len() == i,
            forall|j: int| 0 <= j < i ==> (#[trigger] names@[j])@ == listing@[j].name@,
        decreases listing.len() - i,
    {
        names.push(listing[i].name.clone());
        i = i + 1;
    }
    names
}

impl JobRun {
    /// Takes up a deployment to a site below `root_domain`. The first action
    /// removes what an earlier deployment may have left in the staging
    /// directory.
    pub fn begin(job: DeploymentInformation, root_domain: &str) -> (started: (JobRun, Action))
        ensures
            started.0@ == begun(job@, root_domain@),
            started.1@ == clear_staging(),
    {
        let site = site_root_name(job.domain.as_str(), root_domain);
        let run = JobRun { job, site, wrapper: String::new(), stage: Stage::Clearing };
        let staging = staging_name();
        (run, Action::Clear { path: path1(&staging) })
    }

    /// The stage that the deployment is at.
    pub fn stage(&self) -> (stage: Stage)
        ensures
            stage == self@.stage,
    {
        self.stage
    }

    /// The request that is being carried out.
    pub fn job(&self) -> (job: &DeploymentInformation)
        ensures
            job@ == self@.job,
    {
        &self.job
    }

    /// The name of the directory that holds the site.
    pub fn site(&self) -> (site: &String)
        ensures
            site@ == self@.site,
    {
        &self.site
    }

    /// Hands the request back when the deployment is over.
    pub fn into_job(self) -> (job: DeploymentInformation)
        ensures
            job@ == self@.job,
    {
        self.job
    }

    /// Ends the deployment with `result`.
    fn finish(&mut self, result: Result<(), JobError>) -> (action: Action)
        ensures
            (final(self)@, action@) == finished(old(self)@, result),
    {
        self.stage = Stage::Finished(result);
        Action::Finish { result }
    }

    /// Gives the deployment up with `error`.
    fn abandon(&mut self, error: JobError) -> (action: Action)
        ensures
            (final(self)@, action@) == abandoned(old(self)@, error),
    {
        self.stage = Stage::Cleaning(error);
        let staging = staging_name();
        Action::Clear { path: path1(&staging) }
    }

    /// Takes the outcome of the action before and says what is to be done
    /// next. Every action that is handed out before the publishing plan
    /// spares the site: until then a failure leaves the site as it was.
    pub fn advance(&mut self, event: Event) -> (action: Action)
        ensures
            (final(self)@, action@) == step(old(self)@, event@),
    {
        let staging = staging_name();
        match self.stage {
            Stage::Clearing => match event {
                Event::Done => {
                    self.stage = Stage::Fetching;
                    Action::Fetch {
                        url: tarball_url(self.job.full_name.as_str(), self.job.commit_id.as_str()),
                        bearer: self.job.token.clone(),
                    }
                },
                _ => {
                    let error = error_of(&event);
                    self.finish(Err(error))
                },
            },
            Stage::Fetching => match event {
                Event::Status(status) => {
                    if reports_success(status) {
                        self.stage = Stage::Unpacking;
                        Action::Unpack { into: path1(&staging) }
                    } else {
                        self.finish(Err(JobError::FetchRefused(status)))
                    }
                },
                _ => {
                    let error = error_of(&event);
                    self.finish(Err(error))
                },
            },
            Stage::Unpacking => match event {
                Event::Done => {
                    self.stage = Stage::ListingTop;
                    Action::List { path: path1(&staging) }
                },
                _ => {
                    let error = error_of(&event);
                    self.abandon(error)
                },
            },
            Stage::ListingTop => match event {
                Event::Entries(listing) => match sole_directory(&listing) {
                    Ok(wrapper) => {
                        let path = path2(&staging, &wrapper);
                        self.wrapper = wrapper;
                        self.stage = Stage::ListingWrapper;
                        Action::List { path }
                    },
                    Err(e) => self.abandon(JobError::Layout(e)),
                },
                _ => {
                    let error = error_of(&event);
                    self.abandon(error)
                },
            },
            Stage::ListingWrapper => match event {
                Event::Entries(listing) => {
                    let children = names_of(&listing);
                    self.stage = Stage::Hoisting;
                    Action::Apply { plan: hoist_plan(&staging, &self.wrapper, &children) }
                },
                _ => {
                    let error = error_of(&event);
                    self.abandon(error)
                },
            },
            Stage::Hoisting => match event {
                Event::Done => {
                    self.stage = Stage::Probing;
                    Action::Probe { path: path1(&self.site) }
                },
                _ => {
                    let error = error_of(&event);
                    self.abandon(error)
                },
            },
            Stage::Probing => match event {
                Event::Exists(had_site) => {
                    self.stage = Stage::Publishing { had_site };
                    Action::Apply { plan: publish_plan(&staging, &self.site, had_site) }
                },
                _ => {
                    let error = error_of(&event);
                    self.abandon(error)
                },
            },
            Stage::Publishing { had_site } => match event {
                Event::Done => self.finish(Ok(())),
                _ => {
                    let error = publish_error_of(had_site, &event);
                    self.abandon(error)
                },
            },
            Stage::Cleaning(error) => self.finish(Err(error)),
            Stage::Finished(result) => self.finish(result),
        }
    }
}

} // verus!
