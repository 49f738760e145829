//! What the bot is told: its configuration, and the events of a repository.

use vstd::prelude::*;
use vstd::string::*;

verus! {

/// The part of the bot's configuration that concerns changelogs.
#[derive(Debug, Clone)]
pub struct MoMMIConfig {
    /// Where the repository is checked out, if changelogs are to be handled.
    pub changelog_repo_path: Option<String>,
    /// The only repository whose events count; every repository where `None`.
    pub changelog_repo_name: Option<String>,
    /// How many seconds must pass without a request before changelogs are run.
    pub changelog_delay: u64,
    /// The key file for the connection to the remote repository.
    pub ssh_key: Option<String>,
    /// The address and the password of the service that announces changes.
    pub commloop: Option<(String, String)>,
}

impl MoMMIConfig {
    /// Whether there is a checkout to work on.
    pub fn has_changelog_repo_path(&self) -> (b: bool)
        ensures
            b == (self.changelog_repo_path is Some),
    {
        match &self.changelog_repo_path {
            Some(_) => true,
            None => false,
        }
    }

    /// Whether the events of the repository `full_name` count.
    pub open spec fn spec_concerns(&self, full_name: Seq<char>) -> bool {
        match self.changelog_repo_name {
            Some(name) => name@ == full_name,
            None => true,
        }
    }

    /// Whether the events of the repository `full_name` count.
    pub fn concerns(&self, full_name: &String) -> (b: bool)
        ensures
            b == self.spec_concerns(full_name@),
    {
        match &self.changelog_repo_name {
            Some(name) => *name == *full_name,
            None => true,
        }
    }
}

/// What was done to a pull request.
#[derive(Debug, Clone, PartialEq, Eq)]
pub enum PullRequestAction {
    Closed,
    /// Every other action, with the name by which it is logged.
    Other(String),
}

impl PullRequestAction {
    /// The action's name in a log message.
    pub open spec fn spec_name(self) -> Seq<char> {
        match self {
            PullRequestAction::Closed => "Closed"@,
            PullRequestAction::Other(name) => name@,
        }
    }

    /// The action's name in a log message.
    pub fn name(&self) -> (r: &str)
        ensures
            r@ == self.spec_name(),
    {
        match self {
            PullRequestAction::Closed => "Closed",
            PullRequestAction::Other(name) => name.as_str(),
        }
    }
}

/// A user.
#[derive(Debug, Clone)]
pub struct User {
    pub login: String,
}

/// A repository.
#[derive(Debug, Clone)]
pub struct Repository {
    pub full_name: String,
}

/// A pull request.
#[derive(Debug, Clone)]
pub struct PullRequest {
    pub merged: bool,
    pub body: String,
    pub user: User,
}

/// Something happened to a pull request.
#[derive(Debug, Clone)]
pub struct PullRequestEvent {
    pub action: PullRequestAction,
    pub number: u64,
    pub pull_request: PullRequest,
    pub repository: Repository,
}

/// A commit, with the files that it added and those that it changed.
#[derive(Debug, Clone)]
pub struct Commit {
    pub added: Vec<String>,
    pub modified: Vec<String>,
}

/// Commits were pushed.
#[derive(Debug, Clone)]
pub struct PushEvent {
    pub commits: Vec<Commit>,
    pub repository: Repository,
}

/// Every repository counts where none is named, and that one alone where one is.
pub proof fn law_which_repositories_count(config: MoMMIConfig, full_name: Seq<char>)
    ensures
        config.changelog_repo_name is None ==> config.spec_concerns(full_name),
        config.changelog_repo_name is Some ==> (config.spec_concerns(full_name) <==> full_name == (
        config.changelog_repo_name->0)@),
{
}

/// An action is logged by its name.
pub proof fn law_actions_are_logged_by_name(action: PullRequestAction, name: String)
    ensures
        action is Closed ==> action.spec_name() == seq!['C', 'l', 'o', 's', 'e', 'd'],
        PullRequestAction::Other(name).spec_name() == name@,
{
    reveal_strlit("Closed");
    assert("Closed"@ =~= seq!['C', 'l', 'o', 's', 'e', 'd']);
}

} // verus!
