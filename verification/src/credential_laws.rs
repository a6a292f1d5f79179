//! Laws of the credentials that tasks need after a restart.
use vstd::prelude::*;
use crate::credentials::{
    admits, decides, derivation_fault, kind_for_uri, set_fault, source_fault, sources_fault_from,
    DerivedCredentialAdmission, SessionLimits,
};
use crate::reconcile::{gid_keys, gid_order, lemma_gid_order, owners, record_of};
use crate::session::{
    CredentialRequirement, SessionQueueState, SessionStartupSnapshot, SessionTaskSourceRecord, SessionTaskSourceSet,
};
use crate::startup_laws::lemma_first_duplicate_none;
use crate::text::{find_from, lower, same_but_case, stands_at};

verus! {

/// A task that has stopped, or that has a source that can be read, needs nothing. Any other that
/// has a source whose credentials are missing needs those of the first such source.
pub proof fn law_only_blocked_tasks_need_credentials(
    requirement: Option<CredentialRequirement>,
    queue_state: SessionQueueState,
    sources: Seq<SessionTaskSourceRecord>,
)
    requires
        decides(requirement, queue_state, sources),
    ensures
        queue_state is Stopped ==> requirement is None,
        forall|k: int|
            0 <= k < sources.len() && (#[trigger] sources[k]).persistence_safe_uri is Some
                && !sources[k].needs_credentials ==> requirement is None,
        !(queue_state is Stopped) && sources.len() > 0 && (forall|k: int|
            0 <= k < sources.len() ==> (#[trigger] sources[k]).needs_credentials) ==> requirement is Some
            && requirement->0.source == Some(crate::session::UriId(sources[0].uri_id)) && (
        sources[0].persistence_safe_uri is None ==> requirement->0.kind is SourceUri),
        requirement matches Some(asked) ==> exists|k: int|
            0 <= k < sources.len() && (#[trigger] sources[k]).needs_credentials && asked.source == Some(
                crate::session::UriId(sources[k].uri_id),
            ) && forall|j: int| 0 <= j < k ==> !(#[trigger] sources[j]).needs_credentials,
{
    if !(queue_state is Stopped) && sources.len() > 0 && (forall|k: int|
        0 <= k < sources.len() ==> (#[trigger] sources[k]).needs_credentials) {
        assert(sources[0].needs_credentials);
        assert forall|k: int| 0 <= k < sources.len() implies !crate::credentials::runnable(#[trigger] sources[k]) by {
            assert(sources[k].needs_credentials);
        }
        assert(requirement is Some);
        let k = choose|k: int|
            {
                &&& 0 <= k < sources.len()
                &&& (#[trigger] sources[k]).needs_credentials
                &&& forall|j: int| 0 <= j < k ==> !(#[trigger] sources[j]).needs_credentials
                &&& crate::credentials::requires_for(requirement->0, sources[k])
            };
        assert(k == 0) by {
            if k > 0 {
                assert(!sources[0].needs_credentials);
            }
        }
    }
    if exists|k: int|
        0 <= k < sources.len() && (#[trigger] sources[k]).persistence_safe_uri is Some && !sources[k].needs_credentials {
        let k = choose|k: int|
            0 <= k < sources.len() && (#[trigger] sources[k]).persistence_safe_uri is Some
                && !sources[k].needs_credentials;
        assert(crate::credentials::runnable(sources[k]));
    }
}

/// The place of a pattern that does not begin earlier.
proof fn lemma_found(s: Seq<char>, pattern: Seq<char>, from: int, at: int)
    requires
        0 <= from <= at,
        pattern.len() > 0,
        stands_at(s, pattern, at),
        forall|k: int| from <= k < at ==> !stands_at(s, pattern, k),
    ensures
        find_from(s, pattern, from) == Some(at),
    decreases at - from,
{
    if from < at {
        assert(!stands_at(s, pattern, from));
        lemma_found(s, pattern, from + 1, at);
    }
}

/// What is missing goes by the scheme of an address, in whatever letters it is written.
pub proof fn law_the_scheme_tells_what_is_missing(scheme: Seq<char>, rest: Seq<char>)
    requires
        !scheme.contains(':'),
    ensures
        ({
            let kind = kind_for_uri(scheme + "://"@ + rest);
            &&& same_but_case(scheme, "http"@) || same_but_case(scheme, "https"@) <==> kind is HttpAuthentication
            &&& same_but_case(scheme, "ftp"@) || same_but_case(scheme, "ftps"@) <==> kind is FtpAuthentication
            &&& same_but_case(scheme, "sftp"@) || same_but_case(scheme, "ssh"@) <==> kind is SftpAuthentication
        }),
{
    let uri = scheme + "://"@ + rest;
    let at = scheme.len() as int;
    reveal_strlit("://");
    reveal_strlit("http");
    reveal_strlit("https");
    reveal_strlit("ftp");
    reveal_strlit("ftps");
    reveal_strlit("sftp");
    reveal_strlit("ssh");
    assert("://"@.len() == 3 && "://"@[0] == ':');
    assert(uri.subrange(at, at + 3) =~= "://"@);
    assert(uri.take(at) =~= scheme);
    assert forall|k: int| 0 <= k < at implies !stands_at(uri, "://"@, k) by {
        if stands_at(uri, "://"@, k) {
            assert(uri.subrange(k, k + 3)[0] == ':');
            assert(uri[k] == scheme[k]);
            assert(scheme.contains(scheme[k]));
        }
    }
    lemma_found(uri, "://"@, 0, at);
    assert("http"@.len() == 4 && "http"@[0] == 'h');
    assert("https"@.len() == 5);
    assert("ftp"@.len() == 3 && "ftp"@[0] == 'f');
    assert("ftps"@.len() == 4 && "ftps"@[0] == 'f');
    assert("sftp"@.len() == 4 && "sftp"@[0] == 's');
    assert("ssh"@.len() == 3 && "ssh"@[0] == 's');
    assert(lower('h') == 'h' && lower('f') == 'f' && lower('s') == 's');
    if scheme.len() > 0 {
        assert(same_but_case(scheme, "http"@) ==> lower(scheme[0]) == 'h');
        assert(same_but_case(scheme, "ftp"@) ==> lower(scheme[0]) == 'f');
        assert(same_but_case(scheme, "ftps"@) ==> lower(scheme[0]) == 'f');
        assert(same_but_case(scheme, "sftp"@) ==> lower(scheme[0]) == 's');
        assert(same_but_case(scheme, "ssh"@) ==> lower(scheme[0]) == 's');
    }
}

/// There is one admission for each task, and they stand in ascending GID order.
pub proof fn law_every_task_is_admitted_once(
    admissions: Seq<DerivedCredentialAdmission>,
    snapshot: SessionStartupSnapshot,
    limits: SessionLimits,
)
    requires
        derivation_fault(snapshot, limits) is None,
        admits(admissions, snapshot),
    ensures
        forall|a: int, b: int|
            0 <= a < b < admissions.len() ==> (#[trigger] admissions[a]).gid.0 < (#[trigger] admissions[b]).gid.0,
        forall|row: int|
            0 <= row < snapshot.tasks.len() ==> exists|rank: int|
                0 <= rank < admissions.len() && (#[trigger] admissions[rank]).gid == (#[trigger] snapshot.tasks[row]).gid
                    && decides(
                    admissions[rank].requirement,
                    snapshot.tasks[row].queue_state,
                    record_of(snapshot.task_sources@, snapshot.tasks[row].gid)->0.sources@,
                ),
{
    let gids = owners(snapshot.tasks@);
    lemma_first_duplicate_none(gids);
    lemma_gid_order(gids);
    let order = gid_order(gids);
    let keys = gid_keys(gids);
    assert forall|a: int, b: int| 0 <= a < b < admissions.len() implies (#[trigger] admissions[a]).gid.0 < (
    #[trigger] admissions[b]).gid.0 by {
        let first = order[a].id as int;
        let second = order[b].id as int;
        assert(gids[first] == admissions[a].gid);
        assert(gids[second] == admissions[b].gid);
    }
    assert forall|row: int| 0 <= row < snapshot.tasks.len() implies exists|rank: int|
        0 <= rank < admissions.len() && (#[trigger] admissions[rank]).gid == (#[trigger] snapshot.tasks[row]).gid
            && decides(
            admissions[rank].requirement,
            snapshot.tasks[row].queue_state,
            record_of(snapshot.task_sources@, snapshot.tasks[row].gid)->0.sources@,
        ) by {
        crate::order::lemma_sorted_keys(keys);
        assert(keys[row].id == row);
        assert(keys.contains(keys[row]));
        assert(order.contains(keys[row]));
        let rank = order.index_of(keys[row]);
        assert(admissions[rank].gid == snapshot.tasks[row].gid);
    }
}

/// Sources are accepted only in ascending order of priority and then of number, each number once,
/// each with an address that may be persisted or a mark that its credentials are missing.
pub proof fn law_accepted_sources_are_in_order(set: SessionTaskSourceSet, limits: SessionLimits)
    requires
        set_fault(set, limits) is None,
    ensures
        set.sources.len() <= limits.max_sources_per_task,
        forall|k: int|
            0 < k < set.sources.len() ==> {
                let earlier = set.sources[k - 1];
                let later = #[trigger] set.sources[k];
                earlier.priority < later.priority || (earlier.priority == later.priority && earlier.uri_id
                    < later.uri_id)
            },
        forall|a: int, b: int|
            0 <= a < b < set.sources.len() ==> (#[trigger] set.sources[a]).uri_id != (#[trigger] set.sources[b]).uri_id,
        forall|k: int|
            0 <= k < set.sources.len() ==> (#[trigger] set.sources[k]).persistence_safe_uri is Some
                || set.sources[k].needs_credentials,
{
    assert forall|k: int| 0 <= k < set.sources.len() implies source_fault(set, limits, k) is None by {
        lemma_no_fault(set, limits, 0, k);
    }
    assert forall|a: int, b: int| 0 <= a < b < set.sources.len() implies (#[trigger] set.sources[a]).uri_id != (
    #[trigger] set.sources[b]).uri_id by {
        assert(source_fault(set, limits, b) is None);
    }
    assert forall|k: int| 0 <= k < set.sources.len() implies (#[trigger] set.sources[k]).persistence_safe_uri is Some
        || set.sources[k].needs_credentials by {
        assert(source_fault(set, limits, k) is None);
    }
    assert forall|k: int| 0 < k < set.sources.len() implies {
        let earlier = set.sources[k - 1];
        let later = #[trigger] set.sources[k];
        earlier.priority < later.priority || (earlier.priority == later.priority && earlier.uri_id < later.uri_id)
    } by {
        assert(source_fault(set, limits, k) is None);
    }
}

proof fn lemma_no_fault(set: SessionTaskSourceSet, limits: SessionLimits, from: int, at: int)
    requires
        0 <= from <= at < set.sources.len(),
        sources_fault_from(set, limits, from) is None,
    ensures
        source_fault(set, limits, at) is None,
    decreases at - from,
{
    if from < at {
        lemma_no_fault(set, limits, from + 1, at);
    }
}

} // verus!
