//! What a delivery of the platform asks for: which pushes lead to a
//! deployment, which commit a branch stands at, and which installations are
//! still being set up.

use crate::records::{optional_text, RepositoryRecord};
use crate::text::{join2, join3};
use vstd::prelude::*;
use vstd::string::*;

verus! {

/// The full name of the reference of a branch.
pub open spec fn branch_ref_text(branch: Seq<char>) -> Seq<char> {
    "refs/heads/"@ + branch
}

/// The full name of the reference of a branch.
pub fn branch_ref(branch: &str) -> (name: String)
    ensures
        name@ == branch_ref_text(branch@),
{
    join2("refs/heads/", branch)
}

/// Length in bytes that the name of a site must exceed.
pub const MIN_DOMAIN_LEN: usize = 6;

/// Whether a site may be set up under `domain`: the name must be longer
/// than six bytes in UTF-8.
pub fn domain_is_acceptable(domain: &str) -> (acceptable: bool)
    ensures
        acceptable == (domain.len() > MIN_DOMAIN_LEN),
{
    domain.len() > MIN_DOMAIN_LEN
}

/// The address at which the webhooks of a repository are kept.
pub open spec fn hooks_url_text(full_name: Seq<char>) -> Seq<char> {
    "https://api.github.com/repos/"@ + full_name + "/hooks"@
}

/// The address at which the references of a repository are listed.
pub open spec fn refs_url_text(full_name: Seq<char>) -> Seq<char> {
    "https://api.github.com/repos/"@ + full_name + "/git/refs"@
}

/// The address at which the webhooks of a repository are kept.
pub fn hooks_url(full_name: &str) -> (url: String)
    ensures
        url@ == hooks_url_text(full_name@),
{
    join3("https://api.github.com/repos/", full_name, "/hooks")
}

/// The address at which the references of a repository are listed.
pub fn refs_url(full_name: &str) -> (url: String)
    ensures
        url@ == refs_url_text(full_name@),
{
    join3("https://api.github.com/repos/", full_name, "/git/refs")
}

/// The webhook that a deployed repository is given: what it is called,
/// which events it reports, and where and how it delivers them.
#[derive(Debug, Clone)]
pub struct WebhookRegistration {
    pub name: String,
    pub active: bool,
    pub events: Vec<String>,
    pub url: String,
    pub content_type: String,
    pub insecure_ssl: String,
}

/// The webhook that reports the pushes to a deployed repository: it is
/// called `web`, is active, reports pushes alone and delivers them as JSON,
/// over verified TLS, to the deployment endpoint.
pub fn deploy_webhook() -> (hook: WebhookRegistration)
    ensures
        hook.name@ == "web"@,
        hook.active,
        hook.events@.len() == 1,
        hook.events@[0]@ == "push"@,
        hook.url@ == "https://api.science.tanneberger.me/v1/github/hooks/deploy"@,
        hook.content_type@ == "json"@,
        hook.insecure_ssl@ == "0"@,
{
    let mut events: Vec<String> = Vec::new();
    events.push(String::from_str("push"));
    WebhookRegistration {
        name: String::from_str("web"),
        active: true,
        events,
        url: String::from_str("https://api.science.tanneberger.me/v1/github/hooks/deploy"),
        content_type: String::from_str("json"),
        insecure_ssl: String::from_str("0"),
    }
}

/// What is done about a push to a repository.
#[derive(Debug)]
pub enum PushDecision {
    /// Refused: the repository is not set up to be deployed.
    NotDeployed,
    /// Failed: the store names no site or no branch for the repository.
    Incomplete,
    /// Nothing: the push went to a branch that is not deployed.
    OtherBranch,
    /// The pushed commit is deployed to the site `domain`.
    Deploy { domain: String },
}

/// What is done about a push, as plain values.
pub enum PushOutcome {
    NotDeployed,
    Incomplete,
    OtherBranch,
    Deploy { domain: Seq<char> },
}

impl View for PushDecision {
    type V = PushOutcome;

    open spec fn view(&self) -> PushOutcome {
        match *self {
            PushDecision::NotDeployed => PushOutcome::NotDeployed,
            PushDecision::Incomplete => PushOutcome::Incomplete,
            PushDecision::OtherBranch => PushOutcome::OtherBranch,
            PushDecision::Deploy { domain } => PushOutcome::Deploy { domain: domain@ },
        }
    }
}

/// What is done about a push to `pushed_ref` of a repository that is stored
/// with the given setup.
pub open spec fn push_outcome(
    deployed: bool,
    domain: Option<Seq<char>>,
    branch: Option<Seq<char>>,
    pushed_ref: Seq<char>,
) -> PushOutcome {
    if !deployed {
        PushOutcome::NotDeployed
    } else {
        match (domain, branch) {
            (Some(domain), Some(branch)) => if branch_ref_text(branch) == pushed_ref {
                PushOutcome::Deploy { domain }
            } else {
                PushOutcome::OtherBranch
            },
            _ => PushOutcome::Incomplete,
        }
    }
}

/// Decides what is done about a push to `pushed_ref` of `repository`.
pub fn push_decision(repository: &RepositoryRecord, pushed_ref: &str) -> (decision: PushDecision)
    ensures
        decision@ == push_outcome(
            repository.deployed,
            optional_text(repository.domain),
            optional_text(repository.branch),
            pushed_ref@,
        ),
{
    if !repository.deployed {
        return PushDecision::NotDeployed;
    }
    match (&repository.domain, &repository.branch) {
        (Some(domain), Some(branch)) => {
            let wanted = branch_ref(branch.as_str());
            let pushed = String::from_str(pushed_ref);
            if wanted == pushed {
                PushDecision::Deploy { domain: domain.clone() }
            } else {
                PushDecision::OtherBranch
            }
        },
        _ => PushDecision::Incomplete,
    }
}

/// The status code with which a delivery of a push is answered.
pub fn push_status(decision: &PushDecision) -> (status: u16)
    ensures
        status == match decision@ {
            PushOutcome::NotDeployed => 400u16,
            PushOutcome::Incomplete => 500u16,
            PushOutcome::OtherBranch => 204u16,
            PushOutcome::Deploy { domain } => 200u16,
        },
{
    match decision {
        PushDecision::NotDeployed => 400,
        PushDecision::Incomplete => 500,
        PushDecision::OtherBranch => 204,
        PushDecision::Deploy { domain } => 200,
    }
}

/// A reference of a repository and the commit that it stands at.
#[derive(Debug, Clone)]
pub struct GitReference {
    /// The full name, such as `refs/heads/main`.
    pub name: String,
    /// The hash of the commit.
    pub sha: String,
}

/// Finds the commit that `branch` stands at among the references of a
/// repository: that of the first reference that is named as the branch's
/// reference is.
pub fn find_branch_head(references: &Vec<GitReference>, branch: &str) -> (head: Option<String>)
    ensures
        match head {
            Some(sha) => exists|i: int|
                0 <= i < references@.len() && #[trigger] references@[i].name@ == branch_ref_text(
                    branch@,
                ) && references@[i].sha@ == sha@ && forall|j: int|
                    0 <= j < i ==> #[trigger] references@[j].name@ != branch_ref_text(branch@),
            None => forall|i: int|
                0 <= i < references@.len() ==> #[trigger] references@[i].name@ != branch_ref_text(
                    branch@,
                ),
        },
{
    let wanted = branch_ref(branch);
    let mut i: usize = 0;
    while i < references.len()
        invariant
            i <= references.len(),
            wanted@ == branch_ref_text(branch@),
            forall|j: int| 0 <= j < i ==> #[trigger] references@[j].name@ != wanted@,
        decreases references.len() - i,
    {
        if references[i].name == wanted {
            return Some(references[i].sha.clone());
        }
        i = i + 1;
    }
    None
}

/// The installations whose list of repositories is being rewritten. While
/// an installation is listed, what the store holds of it is not shown.
pub struct PendingInstallations {
    ids: Vec<i64>,
}

impl View for PendingInstallations {
    type V = Seq<i64>;

    closed spec fn view(&self) -> Seq<i64> {
        self.ids@
    }
}

impl PendingInstallations {
    /// No installation is being set up.
    pub fn new() -> (pending: PendingInstallations)
        ensures
            pending@ == Seq::<i64>::empty(),
    {
        PendingInstallations { ids: Vec::new() }
    }

    /// Notes that the repositories of `installation_id` are being rewritten.
    pub fn begin(&mut self, installation_id: i64)
        ensures
            final(self)@ == old(self)@.push(installation_id),
    {
        self.ids.push(installation_id);
    }

    /// Notes that the repositories of `installation_id` have been
    /// rewritten: every note of it is taken out, the others stay in their
    /// order.
    pub fn finish(&mut self, installation_id: i64)
        ensures
            final(self)@ == old(self)@.filter(|id: i64| id != installation_id),
    {
        let mut kept: Vec<i64> = Vec::new();
        let mut i: usize = 0;
        while i < self.ids.len()
            invariant
                i <= self.ids.len(),
                self.ids@ == old(self).ids@,
                kept@ == self.ids@.subrange(0, i as int).filter(|id: i64| id != installation_id),
            decreases self.ids.len() - i,
        {
            let ghost keep = |id: i64| id != installation_id;
            let id = self.ids[i];
            proof {
                let before = self.ids@.subrange(0, i as int);
                let after = self.ids@.subrange(0, i + 1);
                assert(after =~= before.push(id));
                assert(after.drop_last() =~= before);
                reveal_with_fuel(Seq::filter, 2);
            }
            if id != installation_id {
                kept.push(id);
            }
            i = i + 1;
        }
        assert(self.ids@.subrange(0, i as int) =~= self.ids@);
        self.ids = kept;
    }

    /// Whether the repositories of `installation_id` are being rewritten.
    pub fn is_pending(&self, installation_id: i64) -> (pending: bool)
        ensures
            pending == self@.contains(installation_id),
    {
        let mut i: usize = 0;
        while i < self.ids.len()
            invariant
                i <= self.ids.len(),
                forall|j: int| 0 <= j < i ==> self.ids@[j] != installation_id,
            decreases self.ids.len() - i,
        {
            if self.ids[i] == installation_id {
                return true;
            }
            i = i + 1;
        }
        false
    }
}

} // verus!
