//! Decision on an inbound push notification: authenticate it, check the
//! branch, find the repository and resolve its change set.

use vstd::prelude::*;
use crate::catalog::{Catalog, CatalogError, CatalogView, RepoMapping};
use crate::changeset::{ChangeSet, ChangeSetView};
use crate::promote::{lemma_replay_is_idempotent, promoted_tree};
use crate::resolve::{changes_from_commits, commit_views, lemma_webhook_changes_within, webhook_changes, Commit, CommitView};
use crate::signature::{
    check_webhook_signature, hex_decoded, header_view, hmac_sha256, hmac_sha256_tag, is_hex_text,
    sha256_scheme, webhook_auth, AuthError,
};
use crate::text::{same_text, strip_prefix_or_keep, starts_with};

verus! {

/// The fields of a push notification that the decision reads; `None` where
/// the notification lacks the field.
#[derive(Debug, Clone)]
pub struct WebhookPayload {
    pub git_ref: Option<String>,
    pub repository: Option<String>,
    pub commits: Option<Vec<Commit>>,
}

pub ghost struct WebhookPayloadView {
    pub git_ref: Option<Seq<char>>,
    pub repository: Option<Seq<char>>,
    pub commits: Option<Seq<CommitView>>,
}

impl View for WebhookPayload {
    type V = WebhookPayloadView;

    open spec fn view(&self) -> WebhookPayloadView {
        WebhookPayloadView {
            git_ref: crate::resolve::opt_text(self.git_ref),
            repository: crate::resolve::opt_text(self.repository),
            commits: match self.commits {
                Some(c) => Some(commit_views(c@)),
                None => None,
            },
        }
    }
}

pub open spec fn payload_view(p: Option<WebhookPayload>) -> Option<WebhookPayloadView> {
    match p {
        Some(q) => Some(q@),
        None => None,
    }
}

/// The configuration of the synchroniser, built once at start-up.
pub struct SyncConfig {
    /// Shared secret of the webhook signatures.
    pub secret: Vec<u8>,
    /// Token that the compare trigger must present.
    pub bearer: Vec<u8>,
    /// The tracked branch.
    pub branch: String,
    pub catalog: Catalog,
}

/// The ref of the tracked branch: `refs/heads/<branch>`.
pub open spec fn tracked_ref(branch: Seq<char>) -> Seq<char> {
    "refs/heads/"@ + branch
}

/// Whether `git_ref` names the tracked branch `branch`.
pub fn is_tracked_ref(git_ref: &str, branch: &str) -> (r: bool)
    ensures
        r == (git_ref@ == tracked_ref(branch@)),
{
    let heads = "refs/heads/";
    if !starts_with(git_ref, heads) {
        proof {
            if git_ref@ == tracked_ref(branch@) {
                assert(git_ref@.subrange(0, heads@.len() as int) =~= heads@);
            }
        }
        return false;
    }
    let rest = strip_prefix_or_keep(git_ref, heads);
    let r = same_text(rest.as_str(), branch);
    proof {
        let n = heads@.len() as int;
        assert(git_ref@ =~= heads@ + git_ref@.subrange(n, git_ref@.len() as int));
        if git_ref@ == tracked_ref(branch@) {
            assert(branch@ =~= git_ref@.subrange(n, git_ref@.len() as int));
        }
    }
    r
}

/// A repository to synchronise and the change set to apply to it.
pub struct SyncJob {
    pub repository: String,
    pub mapping: RepoMapping,
    pub changes: ChangeSet,
}

/// What a push notification asks for.
pub enum WebhookDecision {
    /// The push went to another branch: nothing to do.
    OtherBranch,
    /// The notification carries no commit list: nothing to do.
    NoCommits,
    /// Synchronise this repository with this change set.
    Synchronize(SyncJob),
}

pub ghost enum WebhookOutcome {
    OtherBranch,
    NoCommits,
    Synchronize { repository: Seq<char>, prefix: Seq<char>, dest: Seq<char>, changes: ChangeSetView },
}

impl View for WebhookDecision {
    type V = WebhookOutcome;

    open spec fn view(&self) -> WebhookOutcome {
        match self {
            WebhookDecision::OtherBranch => WebhookOutcome::OtherBranch,
            WebhookDecision::NoCommits => WebhookOutcome::NoCommits,
            WebhookDecision::Synchronize(job) => WebhookOutcome::Synchronize {
                repository: job.repository@,
                prefix: job.mapping.source_prefix@,
                dest: job.mapping.dest_subfolder@,
                changes: job.changes@,
            },
        }
    }
}

/// Why a push notification was refused.
#[derive(Debug, Clone, Copy, PartialEq, Eq, Structural)]
pub enum WebhookError {
    /// The signature check failed.
    Unauthorized(AuthError),
    /// The body could not be read as a notification.
    MalformedPayload,
    /// The notification names no ref.
    MissingRef,
    /// The notification names no repository.
    MissingRepository,
    /// The repository is not served by this catalog.
    Catalog(CatalogError),
}

pub open spec fn decision_view(r: Result<WebhookDecision, WebhookError>) -> Result<WebhookOutcome, WebhookError> {
    match r {
        Ok(d) => Ok(d@),
        Err(e) => Err(e),
    }
}

/// The decision on a notification, given the outcome of its signature check.
pub open spec fn webhook_outcome(
    catalog: CatalogView,
    branch: Seq<char>,
    auth: Result<(), AuthError>,
    payload: Option<WebhookPayloadView>,
) -> Result<WebhookOutcome, WebhookError> {
    match auth {
        Err(e) => Err(WebhookError::Unauthorized(e)),
        Ok(_) => match payload {
            None => Err(WebhookError::MalformedPayload),
            Some(p) => match p.git_ref {
                None => Err(WebhookError::MissingRef),
                Some(git_ref) => if git_ref != tracked_ref(branch) {
                    Ok(WebhookOutcome::OtherBranch)
                } else {
                    match p.commits {
                        None => Ok(WebhookOutcome::NoCommits),
                        Some(commits) => match p.repository {
                            None => Err(WebhookError::MissingRepository),
                            Some(name) => match catalog.lookup(name) {
                                Err(e) => Err(WebhookError::Catalog(e)),
                                Ok((prefix, dest)) => Ok(WebhookOutcome::Synchronize {
                                    repository: name,
                                    prefix,
                                    dest,
                                    changes: webhook_changes(commits, prefix),
                                }),
                            },
                        },
                    }
                },
            },
        },
    }
}

/// A decided job's change set is well formed.
pub open spec fn job_wf(r: Result<WebhookDecision, WebhookError>) -> bool {
    match r {
        Ok(WebhookDecision::Synchronize(job)) => job.changes.wf(),
        _ => true,
    }
}

/// Decides on a notification whose body should carry `expected_tag`.
/// `payload` is the notification read from the body, `None` where the body
/// could not be read.
pub fn decide_webhook_with_tag(
    config: &SyncConfig,
    header: Option<&[u8]>,
    expected_tag: &[u8],
    payload: Option<WebhookPayload>,
) -> (r: Result<WebhookDecision, WebhookError>)
    ensures
        decision_view(r) == webhook_outcome(
            config.catalog@,
            config.branch@,
            webhook_auth(header_view(header), expected_tag@),
            payload_view(payload),
        ),
        job_wf(r),
{
    match check_webhook_signature(header, expected_tag) {
        Err(e) => return Err(WebhookError::Unauthorized(e)),
        Ok(()) => {},
    }
    let p = match payload {
        None => return Err(WebhookError::MalformedPayload),
        Some(p) => p,
    };
    let git_ref = match &p.git_ref {
        None => return Err(WebhookError::MissingRef),
        Some(g) => g,
    };
    if !is_tracked_ref(git_ref.as_str(), config.branch.as_str()) {
        return Ok(WebhookDecision::OtherBranch);
    }
    let commits = match &p.commits {
        None => return Ok(WebhookDecision::NoCommits),
        Some(c) => c,
    };
    let name = match &p.repository {
        None => return Err(WebhookError::MissingRepository),
        Some(n) => n,
    };
    let mapping = match config.catalog.lookup(name.as_str()) {
        Err(e) => return Err(WebhookError::Catalog(e)),
        Ok(m) => m,
    };
    let changes = changes_from_commits(commits, mapping.source_prefix.as_str());
    Ok(WebhookDecision::Synchronize(SyncJob { repository: name.clone(), mapping, changes }))
}

/// Decides on a notification: its raw `body` must be signed in `header`
/// with the configured secret.
pub fn decide_webhook(
    config: &SyncConfig,
    header: Option<&[u8]>,
    body: &[u8],
    payload: Option<WebhookPayload>,
) -> (r: Result<WebhookDecision, WebhookError>)
    ensures
        decision_view(r) == webhook_outcome(
            config.catalog@,
            config.branch@,
            webhook_auth(header_view(header), hmac_sha256_tag(config.secret@, body@)),
            payload_view(payload),
        ),
        job_wf(r),
{
    let tag = hmac_sha256(config.secret.as_slice(), body);
    decide_webhook_with_tag(config, header, tag.as_slice(), payload)
}

/// A correctly signed push to another branch is answered with success and
/// no job: nothing in production is touched.
pub proof fn lemma_other_branch_is_noop(
    catalog: CatalogView,
    branch: Seq<char>,
    payload: WebhookPayloadView,
)
    requires
        payload.git_ref is Some,
        payload.git_ref->Some_0 != tracked_ref(branch),
    ensures
        webhook_outcome(catalog, branch, Ok(()), Some(payload)) == Ok::<WebhookOutcome, WebhookError>(
            WebhookOutcome::OtherBranch,
        ),
{
}

/// A signature computed with another secret, whose tag for this body differs
/// from the configured secret's, is refused as unauthorized, and no job
/// comes of it.
pub proof fn lemma_other_secret_refused(
    catalog: CatalogView,
    branch: Seq<char>,
    secret: Seq<u8>,
    other_secret: Seq<u8>,
    body: Seq<u8>,
    digits: Seq<u8>,
    payload: Option<WebhookPayloadView>,
)
    requires
        is_hex_text(digits),
        hex_decoded(digits) == hmac_sha256_tag(other_secret, body),
        hmac_sha256_tag(other_secret, body) != hmac_sha256_tag(secret, body),
    ensures
        webhook_outcome(
            catalog,
            branch,
            webhook_auth(Some(sha256_scheme() + digits), hmac_sha256_tag(secret, body)),
            payload,
        ) == Err::<WebhookOutcome, WebhookError>(WebhookError::Unauthorized(AuthError::Mismatch)),
{
    let h = sha256_scheme() + digits;
    assert(h.subrange(0, sha256_scheme().len() as int) =~= sha256_scheme());
    assert(h.subrange(sha256_scheme().len() as int, h.len() as int) =~= digits);
}

/// Every path of a decided job lies under the repository's source prefix,
/// whatever the commits name.
pub proof fn lemma_job_within_prefix(
    catalog: CatalogView,
    branch: Seq<char>,
    auth: Result<(), AuthError>,
    payload: Option<WebhookPayloadView>,
)
    ensures
        match webhook_outcome(catalog, branch, auth, payload) {
            Ok(WebhookOutcome::Synchronize { prefix, changes, .. }) => changes.within(prefix),
            _ => true,
        },
{
    match payload {
        Some(p) => match p.commits {
            Some(commits) => match p.repository {
                Some(name) => match catalog.lookup(name) {
                    Ok((prefix, _)) => lemma_webhook_changes_within(commits, prefix),
                    Err(_) => {},
                },
                None => {},
            },
            None => {},
        },
        None => {},
    }
}

/// Delivering the same notification twice, with the same files staged each
/// time, leaves production as the first delivery left it.
pub proof fn lemma_webhook_replay_idempotent(
    catalog: CatalogView,
    branch: Seq<char>,
    auth: Result<(), AuthError>,
    payload: Option<WebhookPayloadView>,
    tree: Map<Seq<char>, Seq<u8>>,
    staging: Map<Seq<char>, Seq<u8>>,
)
    ensures
        match webhook_outcome(catalog, branch, auth, payload) {
            Ok(WebhookOutcome::Synchronize { prefix, dest, changes, .. }) => promoted_tree(
                promoted_tree(tree, changes, prefix, dest, staging),
                changes,
                prefix,
                dest,
                staging,
            ) == promoted_tree(tree, changes, prefix, dest, staging),
            _ => true,
        },
{
    match webhook_outcome(catalog, branch, auth, payload) {
        Ok(WebhookOutcome::Synchronize { prefix, dest, changes, .. }) => {
            lemma_replay_is_idempotent(tree, changes, prefix, dest, staging);
        },
        _ => {},
    }
}

} // verus!
