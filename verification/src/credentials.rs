//! Credential admissions derived from persisted source sets.
use vstd::prelude::*;
use vstd::utf8::encode_utf8;
use crate::index::KeySet;
use crate::reconcile::{
    first_duplicate, gid_order, index_gids, indexes, least_absent, find_least_absent, lemma_gid_order,
    lemma_indexed_record, owner_list, owners, record_of,
};
use crate::session::{
    CredentialKind, CredentialRequirement, Gid, SessionQueueState, SessionStartupSnapshot, SessionTaskSourceRecord,
    SessionTaskSourceSet, UriId,
};
use crate::text::{chars_of, chars_same_but_case, find_chars, find_from, same_but_case, slice_chars};

verus! {

/// One complete credential admission decision for a task.
///
/// The absence of a record never means the absence of a requirement.
#[derive(Clone, Debug, PartialEq, Eq)]
pub struct DerivedCredentialAdmission {
    pub gid: Gid,
    pub requirement: Option<CredentialRequirement>,
}

/// Why persisted source metadata cannot produce one exact admission decision
/// per startup task.
#[derive(Clone, Copy, Debug, PartialEq, Eq, Structural)]
pub enum CredentialDerivationError {
    AllocationFailed,
    TooManyTasks,
    TooManySourceSets,
    DuplicateTask(Gid),
    DuplicateSourceSet(Gid),
    MissingSourceSet(Gid),
    ExtraSourceSet(Gid),
    TooManySources(Gid),
    DuplicateSourceId(Gid),
    NonCanonicalSourceOrder(Gid),
    UnsafeSourceUri(Gid),
    UnmarkedRedactedSource(Gid),
}

/// Bounds of the session store.
#[derive(Clone, Copy, Debug, PartialEq, Eq, Structural)]
pub struct SessionLimits {
    pub max_tasks: usize,
    pub max_sources_per_task: usize,
    pub max_safe_uri_bytes: usize,
}

/// Why source `index` of a set is refused, if it is: identities are distinct,
/// the order is by priority and then by identity, URIs are bounded, and a
/// redacted source is marked as needing credentials.
pub open spec fn source_fault(
    set: SessionTaskSourceSet,
    limits: SessionLimits,
    index: int,
) -> Option<CredentialDerivationError> {
    let source = set.sources[index];
    let earlier = set.sources[index - 1];
    if exists|k: int| 0 <= k < index && (#[trigger] set.sources[k]).uri_id == source.uri_id {
        Some(CredentialDerivationError::DuplicateSourceId(set.gid))
    } else if index > 0 && !(earlier.priority < source.priority || (earlier.priority
        == source.priority && earlier.uri_id < source.uri_id)) {
        Some(CredentialDerivationError::NonCanonicalSourceOrder(set.gid))
    } else {
        match source.persistence_safe_uri {
            Some(uri) => if encode_utf8(uri@).len() as usize > limits.max_safe_uri_bytes {
                Some(CredentialDerivationError::UnsafeSourceUri(set.gid))
            } else {
                None
            },
            None => if source.needs_credentials {
                None
            } else {
                Some(CredentialDerivationError::UnmarkedRedactedSource(set.gid))
            },
        }
    }
}

/// The first refused source from `from` on.
pub open spec fn sources_fault_from(
    set: SessionTaskSourceSet,
    limits: SessionLimits,
    from: int,
) -> Option<CredentialDerivationError>
    decreases set.sources.len() - from,
{
    if from < 0 || from >= set.sources.len() {
        None
    } else if source_fault(set, limits, from) is Some {
        source_fault(set, limits, from)
    } else {
        sources_fault_from(set, limits, from + 1)
    }
}

/// Why a source set is refused, if it is.
pub open spec fn set_fault(set: SessionTaskSourceSet, limits: SessionLimits) -> Option<
    CredentialDerivationError,
> {
    if set.sources.len() > limits.max_sources_per_task {
        Some(CredentialDerivationError::TooManySources(set.gid))
    } else {
        sources_fault_from(set, limits, 0)
    }
}

/// Checks one source set.
fn validate_source_set(set: &SessionTaskSourceSet, limits: SessionLimits) -> (r: Option<
    CredentialDerivationError,
>)
    ensures
        r == set_fault(*set, limits),
{
    if set.sources.len() > limits.max_sources_per_task {
        return Some(CredentialDerivationError::TooManySources(set.gid));
    }
    let mut ids = KeySet::new();
    let mut i: usize = 0;
    while i < set.sources.len()
        invariant
            i <= set.sources.len(),
            set.sources.len() <= limits.max_sources_per_task,
            sources_fault_from(*set, limits, 0) == sources_fault_from(*set, limits, i as int),
            forall|v: u128| #[trigger] ids@.contains(v) <==> exists|k: int| 0 <= k < i && (#[trigger] set.sources[k]).uri_id == v,
        decreases set.sources.len() - i,
    {
        let source = &set.sources[i];
        let ghost before = ids@;
        let ghost fault = source_fault(*set, limits, i as int);
        if !ids.insert(source.uri_id as u128) {
            assert(before.contains(source.uri_id as u128));
            return Some(CredentialDerivationError::DuplicateSourceId(set.gid));
        }
        assert(!before.contains(source.uri_id as u128));
        assert(forall|k: int| 0 <= k < i ==> (#[trigger] set.sources[k]).uri_id != source.uri_id);
        if i > 0 {
            let earlier = &set.sources[i - 1];
            if !(earlier.priority < source.priority || (earlier.priority == source.priority
                && earlier.uri_id < source.uri_id)) {
                return Some(CredentialDerivationError::NonCanonicalSourceOrder(set.gid));
            }
        }
        match &source.persistence_safe_uri {
            Some(uri) => {
                if uri.as_str().len() > limits.max_safe_uri_bytes {
                    return Some(CredentialDerivationError::UnsafeSourceUri(set.gid));
                }
            },
            None => {
                if !source.needs_credentials {
                    return Some(CredentialDerivationError::UnmarkedRedactedSource(set.gid));
                }
            },
        }
        assert(fault is None);
        proof {
            assert forall|v: u128| #[trigger] ids@.contains(v) <==> exists|k: int| 0 <= k < i + 1 && (#[trigger] set.sources[k]).uri_id == v by {
                if v == source.uri_id {
                    assert(set.sources[i as int].uri_id == v);
                } else if before.contains(v) {
                    let k = choose|k: int| 0 <= k < i && (#[trigger] set.sources[k]).uri_id == v;
                    assert(set.sources[k].uri_id == v);
                }
            }
        }
        i = i + 1;
    }
    None
}

/// Whether a source can run without a credential.
pub open spec fn runnable(source: SessionTaskSourceRecord) -> bool {
    source.persistence_safe_uri is Some && !source.needs_credentials
}

/// The scheme of a URI: what stands before the first `://`.
pub open spec fn uri_scheme(uri: Seq<char>) -> Option<Seq<char>> {
    match find_from(uri, "://"@, 0) {
        Some(at) => Some(uri.take(at)),
        None => None,
    }
}

/// The credential that a URI's scheme calls for.
pub open spec fn kind_for_uri(uri: Seq<char>) -> CredentialKind {
    match uri_scheme(uri) {
        Some(scheme) => if same_but_case(scheme, "http"@) || same_but_case(scheme, "https"@) {
            CredentialKind::HttpAuthentication
        } else if same_but_case(scheme, "ftp"@) || same_but_case(scheme, "ftps"@) {
            CredentialKind::FtpAuthentication
        } else if same_but_case(scheme, "sftp"@) || same_but_case(scheme, "ssh"@) {
            CredentialKind::SftpAuthentication
        } else {
            CredentialKind::SourceUri
        },
        None => CredentialKind::SourceUri,
    }
}

/// Finds the credential that a URI's scheme calls for.
pub fn credential_kind_for_uri(uri: &str) -> (r: CredentialKind)
    ensures
        r == kind_for_uri(uri@),
{
    let chars = chars_of(uri);
    let at = match find_chars(&chars, &chars_of("://")) {
        Some(at) => at,
        None => return CredentialKind::SourceUri,
    };
    let scheme = slice_chars(&chars, 0, at);
    assert(scheme@ =~= uri@.take(at as int));
    if chars_same_but_case(&scheme, &chars_of("http")) || chars_same_but_case(
        &scheme,
        &chars_of("https"),
    ) {
        CredentialKind::HttpAuthentication
    } else if chars_same_but_case(&scheme, &chars_of("ftp")) || chars_same_but_case(
        &scheme,
        &chars_of("ftps"),
    ) {
        CredentialKind::FtpAuthentication
    } else if chars_same_but_case(&scheme, &chars_of("sftp")) || chars_same_but_case(
        &scheme,
        &chars_of("ssh"),
    ) {
        CredentialKind::SftpAuthentication
    } else {
        CredentialKind::SourceUri
    }
}

/// What a credential kind is called after a restart.
pub open spec fn kind_description(kind: CredentialKind) -> Seq<char> {
    match kind {
        CredentialKind::HttpAuthentication => "HTTP credentials required after restart"@,
        CredentialKind::FtpAuthentication => "FTP credentials required after restart"@,
        CredentialKind::SftpAuthentication => "SFTP credentials required after restart"@,
        CredentialKind::SourceUri => "source URI or credentials required after restart"@,
        CredentialKind::ProxyAuthentication => "proxy credentials required after restart"@,
        CredentialKind::PrivateKeyPassphrase => "private-key passphrase required after restart"@,
    }
}

/// The credential kind of a source.
pub open spec fn source_kind(source: SessionTaskSourceRecord) -> CredentialKind {
    match source.persistence_safe_uri {
        Some(uri) => kind_for_uri(uri@),
        None => CredentialKind::SourceUri,
    }
}

/// Whether a requirement is the one that a source calls for.
pub open spec fn requires_for(requirement: CredentialRequirement, source: SessionTaskSourceRecord) -> bool {
    &&& requirement.kind == source_kind(source)
    &&& requirement.source == Some(UriId(source.uri_id))
    &&& requirement.safe_description@ == kind_description(source_kind(source))
}

fn credential_requirement(source: &SessionTaskSourceRecord) -> (r: CredentialRequirement)
    ensures
        requires_for(r, *source),
{
    let kind = match &source.persistence_safe_uri {
        Some(uri) => credential_kind_for_uri(uri.as_str()),
        None => CredentialKind::SourceUri,
    };
    let description = match kind {
        CredentialKind::HttpAuthentication => "HTTP credentials required after restart",
        CredentialKind::FtpAuthentication => "FTP credentials required after restart",
        CredentialKind::SftpAuthentication => "SFTP credentials required after restart",
        CredentialKind::SourceUri => "source URI or credentials required after restart",
        CredentialKind::ProxyAuthentication => "proxy credentials required after restart",
        CredentialKind::PrivateKeyPassphrase => "private-key passphrase required after restart",
    };
    CredentialRequirement {
        kind,
        source: Some(UriId(source.uri_id)),
        safe_description: description.to_owned(),
    }
}

/// Whether a decision is the one for a task with these sources: no requirement
/// where the task has stopped, can run from some source, or has no marked source;
/// otherwise that of the first marked source.
pub open spec fn decides(
    requirement: Option<CredentialRequirement>,
    queue_state: SessionQueueState,
    sources: Seq<SessionTaskSourceRecord>,
) -> bool {
    let free = queue_state == SessionQueueState::Stopped || exists|k: int|
        0 <= k < sources.len() && runnable(#[trigger] sources[k]);
    match requirement {
        Some(r) => !free && exists|k: int|
            {
                &&& 0 <= k < sources.len()
                &&& (#[trigger] sources[k]).needs_credentials
                &&& forall|j: int| 0 <= j < k ==> !(#[trigger] sources[j]).needs_credentials
                &&& requires_for(r, sources[k])
            },
        None => free || forall|k: int| 0 <= k < sources.len() ==> !(#[trigger] sources[k]).needs_credentials,
    }
}

fn decide_requirement(queue_state: SessionQueueState, sources: &Vec<SessionTaskSourceRecord>) -> (r: Option<
    CredentialRequirement,
>)
    ensures
        decides(r, queue_state, sources@),
{
    if queue_state == SessionQueueState::Stopped {
        return None;
    }
    let mut i: usize = 0;
    while i < sources.len()
        invariant
            i <= sources.len(),
            forall|k: int| 0 <= k < i ==> !runnable(#[trigger] sources[k]),
        decreases sources.len() - i,
    {
        if sources[i].persistence_safe_uri.is_some() && !sources[i].needs_credentials {
            assert(runnable(sources[i as int]));
            return None;
        }
        i = i + 1;
    }
    let mut i: usize = 0;
    while i < sources.len()
        invariant
            i <= sources.len(),
            queue_state != SessionQueueState::Stopped,
            forall|k: int| 0 <= k < sources.len() ==> !runnable(#[trigger] sources[k]),
            forall|k: int| 0 <= k < i ==> !(#[trigger] sources[k]).needs_credentials,
        decreases sources.len() - i,
    {
        if sources[i].needs_credentials {
            let requirement = credential_requirement(&sources[i]);
            assert(sources[i as int].needs_credentials);
            return Some(requirement);
        }
        i = i + 1;
    }
    None
}

/// Why the task at `rank`, in GID order, has no decision, if it has none.
pub open spec fn admission_fault(
    snapshot: SessionStartupSnapshot,
    limits: SessionLimits,
    rank: int,
) -> Option<CredentialDerivationError> {
    let task = snapshot.tasks[gid_order(owners(snapshot.tasks@))[rank].id as int];
    match record_of(snapshot.task_sources@, task.gid) {
        None => Some(CredentialDerivationError::MissingSourceSet(task.gid)),
        Some(set) => set_fault(set, limits),
    }
}

/// The first task from `rank` on without a decision.
pub open spec fn admission_fault_from(
    snapshot: SessionStartupSnapshot,
    limits: SessionLimits,
    rank: int,
) -> Option<CredentialDerivationError>
    decreases snapshot.tasks.len() - rank,
{
    if rank < 0 || rank >= snapshot.tasks.len() {
        None
    } else if admission_fault(snapshot, limits, rank) is Some {
        admission_fault(snapshot, limits, rank)
    } else {
        admission_fault_from(snapshot, limits, rank + 1)
    }
}

/// Why the source sets do not decide every task, if they do not.
pub open spec fn derivation_fault(snapshot: SessionStartupSnapshot, limits: SessionLimits) -> Option<
    CredentialDerivationError,
> {
    let tasks = owners(snapshot.tasks@);
    let sets = owners(snapshot.task_sources@);
    if snapshot.tasks.len() > limits.max_tasks {
        Some(CredentialDerivationError::TooManyTasks)
    } else if snapshot.task_sources.len() > limits.max_tasks {
        Some(CredentialDerivationError::TooManySourceSets)
    } else if first_duplicate(tasks) is Some {
        Some(CredentialDerivationError::DuplicateTask(first_duplicate(tasks)->0))
    } else if first_duplicate(sets) is Some {
        Some(CredentialDerivationError::DuplicateSourceSet(first_duplicate(sets)->0))
    } else if least_absent(sets, tasks) is Some {
        Some(CredentialDerivationError::ExtraSourceSet(least_absent(sets, tasks)->0))
    } else {
        admission_fault_from(snapshot, limits, 0)
    }
}

/// Whether `admissions` decides every task once, in ascending GID order.
pub open spec fn admits(admissions: Seq<DerivedCredentialAdmission>, snapshot: SessionStartupSnapshot) -> bool {
    let order = gid_order(owners(snapshot.tasks@));
    &&& admissions.len() == snapshot.tasks.len()
    &&& forall|rank: int|
        0 <= rank < admissions.len() ==> {
            let task = snapshot.tasks[order[rank].id as int];
            &&& (#[trigger] admissions[rank]).gid == task.gid
            &&& decides(
                admissions[rank].requirement,
                task.queue_state,
                record_of(snapshot.task_sources@, task.gid)->0.sources@,
            )
        }
}

/// Derives the plaintext-free startup credential admissions from the session
/// owner's exact bounded source sets.
pub fn derive_credential_admissions(snapshot: &SessionStartupSnapshot, limits: SessionLimits) -> (r: Result<
    Vec<DerivedCredentialAdmission>,
    CredentialDerivationError,
>)
    ensures
        r is Err <==> derivation_fault(*snapshot, limits) is Some,
        r matches Err(error) ==> derivation_fault(*snapshot, limits) == Some(error),
        r matches Ok(admissions) ==> admits(admissions@, *snapshot),
{
    if snapshot.tasks.len() > limits.max_tasks {
        return Err(CredentialDerivationError::TooManyTasks);
    }
    if snapshot.task_sources.len() > limits.max_tasks {
        return Err(CredentialDerivationError::TooManySourceSets);
    }
    let task_gids = owner_list(&snapshot.tasks);
    let tasks = match index_gids(&task_gids) {
        Ok(tasks) => tasks,
        Err(gid) => return Err(CredentialDerivationError::DuplicateTask(gid)),
    };
    let set_gids = owner_list(&snapshot.task_sources);
    let sets = match index_gids(&set_gids) {
        Ok(sets) => sets,
        Err(gid) => return Err(CredentialDerivationError::DuplicateSourceSet(gid)),
    };
    if let Some(gid) = find_least_absent(&set_gids, &tasks, Ghost(task_gids@)) {
        return Err(CredentialDerivationError::ExtraSourceSet(gid));
    }
    let order = crate::reconcile::order_by_gid(&task_gids);
    proof {
        lemma_gid_order(task_gids@);
    }
    let mut output: Vec<DerivedCredentialAdmission> = Vec::new();
    let mut rank: usize = 0;
    while rank < order.len()
        invariant
            rank <= order.len(),
            order.len() == snapshot.tasks.len(),
            task_gids@ == owners(snapshot.tasks@),
            order@ == gid_order(task_gids@),
            indexes(sets@, owners(snapshot.task_sources@)),
            owners(snapshot.task_sources@).no_duplicates(),
            forall|k: int| 0 <= k < order.len() ==> (#[trigger] order[k]).id < order.len(),
            derivation_fault(*snapshot, limits) == admission_fault_from(*snapshot, limits, rank as int),
            output.len() == rank,
            forall|k: int|
                0 <= k < rank ==> {
                    let task = snapshot.tasks[order[k].id as int];
                    &&& (#[trigger] output[k]).gid == task.gid
                    &&& decides(
                        output[k].requirement,
                        task.queue_state,
                        record_of(snapshot.task_sources@, task.gid)->0.sources@,
                    )
                },
        decreases order.len() - rank,
    {
        let place: usize = order[rank].id as usize;
        let task = &snapshot.tasks[place];
        let set = match sets.get(task.gid.0 as u128) {
            Some(i) => {
                proof {
                    lemma_indexed_record(sets@, snapshot.task_sources@, task.gid);
                }
                &snapshot.task_sources[i]
            },
            None => return Err(CredentialDerivationError::MissingSourceSet(task.gid)),
        };
        if let Some(error) = validate_source_set(set, limits) {
            return Err(error);
        }
        let requirement = decide_requirement(task.queue_state, &set.sources);
        output.push(DerivedCredentialAdmission { gid: task.gid, requirement });
        rank = rank + 1;
    }
    Ok(output)
}

} // verus!
