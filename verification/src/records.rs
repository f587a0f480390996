//! The records that the deployment logic reads: repositories of an
//! installation as the platform and the store describe them.

use vstd::prelude::*;

verus! {

/// A repository that was added to or removed from an installation.
#[derive(Debug, Clone, PartialEq, Eq, Hash)]
pub struct GithubRepoEdit {
    pub id: i64,
    pub name: String,
    pub full_name: String,
}

/// The account that a user has on the platform.
#[derive(Debug, Clone, Copy, PartialEq, Eq, Structural)]
pub struct GithubUserInfo {
    pub id: i64,
}

/// A user of the platform as the store keeps it: the identifier as a
/// 128-bit number, and the credential with which new tokens are obtained.
#[derive(Debug, Clone)]
pub struct GithubUser {
    pub id: u128,
    pub refresh_token: String,
}

/// A repository as the store keeps it, as far as deployments read it.
#[derive(Debug, Clone)]
pub struct RepositoryRecord {
    /// The identifier that the platform gave the repository.
    pub github_id: i64,
    /// The name without the owner.
    pub github_short_name: String,
    /// The name as `owner/name`.
    pub github_full_name: String,
    /// Whether the repository is set up to be deployed.
    pub deployed: bool,
    /// The site that it is deployed to.
    pub domain: Option<String>,
    /// The branch that is deployed.
    pub branch: Option<String>,
}

/// A repository as the store keeps it, with the instant of its last change
/// in nanoseconds since the epoch.
#[derive(Debug, Clone)]
pub struct GithubRepoInformation {
    pub id: i64,
    pub short_name: String,
    pub full_name: String,
    pub deployed: bool,
    pub domain: Option<String>,
    pub branch: Option<String>,
    pub last_update: i128,
}

/// A repository as it is shown to the user.
#[derive(Debug, Clone)]
pub struct FrontendRepoInformation {
    pub id: i64,
    pub short_name: String,
    pub full_name: String,
    pub deployed: bool,
    pub domain: Option<String>,
    pub branch: Option<String>,
}

/// A text that may be missing, as a sequence of characters.
pub open spec fn optional_text(text: Option<String>) -> Option<Seq<char>> {
    match text {
        Some(t) => Some(t@),
        None => None,
    }
}

/// A repository as it is shown, as plain values.
pub struct FrontendRepoView {
    pub id: i64,
    pub short_name: Seq<char>,
    pub full_name: Seq<char>,
    pub deployed: bool,
    pub domain: Option<Seq<char>>,
    pub branch: Option<Seq<char>>,
}

impl View for FrontendRepoInformation {
    type V = FrontendRepoView;

    open spec fn view(&self) -> FrontendRepoView {
        FrontendRepoView {
            id: self.id,
            short_name: self.short_name@,
            full_name: self.full_name@,
            deployed: self.deployed,
            domain: optional_text(self.domain),
            branch: optional_text(self.branch),
        }
    }
}

/// What is shown of a stored repository.
pub open spec fn shown(record: RepositoryRecord) -> FrontendRepoView {
    FrontendRepoView {
        id: record.github_id,
        short_name: record.github_short_name@,
        full_name: record.github_full_name@,
        deployed: record.deployed,
        domain: optional_text(record.domain),
        branch: optional_text(record.branch),
    }
}

/// A copy of a text that may be missing.
pub fn copy_optional(text: &Option<String>) -> (copy: Option<String>)
    ensures
        optional_text(copy) == optional_text(*text),
{
    match text {
        Some(t) => Some(t.clone()),
        None => None,
    }
}

/// What is shown of the stored repositories, in their order.
pub fn frontend_repositories(records: &Vec<RepositoryRecord>) -> (list: Vec<
    FrontendRepoInformation,
>)
    ensures
        list@.len() == records@.len(),
        forall|i: int| 0 <= i < records@.len() ==> (#[trigger] list@[i])@ == shown(records@[i]),
{
    let mut list: Vec<FrontendRepoInformation> = Vec::new();
    let mut i: usize = 0;
    while i < records.len()
        invariant
            i <= records.len(),
            list@.len() == i,
            forall|j: int| 0 <= j < i ==> (#[trigger] list@[j])@ == shown(records@[j]),
        decreases records.len() - i,
    {
        let record = &records[i];
        list.push(
            FrontendRepoInformation {
                id: record.github_id,
                short_name: record.github_short_name.clone(),
                full_name: record.github_full_name.clone(),
                deployed: record.deployed,
                domain: copy_optional(&record.domain),
                branch: copy_optional(&record.branch),
            },
        );
        i = i + 1;
    }
    list
}

/// The short names of the stored repositories, in their order: the
/// repositories that a token for their installation is limited to.
pub fn repository_names(records: &Vec<RepositoryRecord>) -> (names: Vec<String>)
    ensures
        names@.len() == records@.len(),
        forall|i: int|
            0 <= i < records@.len() ==> (#[trigger] names@[i])@ == records@[i].github_short_name@,
{
    let mut names: Vec<String> = Vec::new();
    let mut i: usize = 0;
    while i < records.len()
        invariant
            i <= records.len(),
            names@.len() == i,
            forall|j: int|
                0 <= j < i ==> (#[trigger] names@[j])@ == records@[j].github_short_name@,
        decreases records.len() - i,
    {
        names.push(records[i].github_short_name.clone());
        i = i + 1;
    }
    names
}

} // verus!
