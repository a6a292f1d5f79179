//! Laws of sessions in JSON: a task is imported as its document writes it.
use vstd::prelude::*;
use crate::control::HttpControlError;
use crate::encoding::base64_bytes;
use crate::json::{field_text, json_field, json_items, json_text, Json};
use crate::session_file::{
    record_uris, source_of, sources_in, task_of, task_options, texts_in, OptionForm, SessionLimits, SourceView,
    TaskFindings, TaskView,
};
use crate::session_import::{document_tasks, findings_at, tasks_in, understood, ImportRequest};
use crate::session_torrent::{first_files, torrent_view, TorrentFindings, TorrentView};
use crate::text::{decimal_digits, law_decimal_round_trip};

verus! {

/// A source is imported from the fields of its own names: what identifies and ranks it as its
/// digits say, its address unless it is withheld, and withheld only where credentials are
/// missing.
pub proof fn law_sources_import_as_written(value: Json, limits: SessionLimits, source: SourceView)
    requires
        source_of(value, limits) == Ok::<SourceView, HttpControlError>(source),
    ensures
        forall|n: u32|
            field_text(value, "uriId"@) == Some(#[trigger] decimal_digits(n as nat)) ==> source.uri_id == n,
        forall|n: u32|
            field_text(value, "priority"@) == Some(#[trigger] decimal_digits(n as nat)) ==> source.priority == n,
        json_field(value, "needsCredentials"@) == Some(Json::Bool(source.needs_credentials)),
        source.persistence_safe_uri is Some ==> field_text(value, "uri"@) == source.persistence_safe_uri,
        source.persistence_safe_uri is None ==> source.needs_credentials && json_field(value, "uri"@) == Some(
            Json::Null,
        ),
        field_text(value, "fingerprint"@) is Some,
        field_text(value, "fingerprint"@)->0.len() == 64,
{
    assert forall|n: u32| field_text(value, "uriId"@) == Some(#[trigger] decimal_digits(n as nat)) implies source.uri_id
        == n by {
        law_decimal_round_trip(n as nat, u32::MAX as int);
    }
    assert forall|n: u32| field_text(value, "priority"@) == Some(#[trigger] decimal_digits(n as nat)) implies source.priority
        == n by {
        law_decimal_round_trip(n as nat, i64::MAX as int);
        crate::text::lemma_decimal_digits(n as nat);
        assert(crate::text::is_digit(decimal_digits(n as nat)[0]));
    }
}

proof fn lemma_texts(items: Seq<Json>, n: int)
    requires
        0 <= n <= items.len(),
    ensures
        texts_in(items, n) matches Some(texts) ==> texts.len() == n && forall|i: int|
            0 <= i < n ==> Some(#[trigger] texts[i]) == json_text(items[i]),
    decreases n,
{
    if n > 0 {
        lemma_texts(items, n - 1);
    }
}

proof fn lemma_sources(items: Seq<Json>, limits: SessionLimits, n: int)
    requires
        0 <= n <= items.len(),
    ensures
        sources_in(items, limits, n) matches Ok(sources) ==> sources.len() == n && forall|i: int|
            0 <= i < n ==> source_of(items[i], limits) == Ok::<SourceView, HttpControlError>(#[trigger] sources[i]),
    decreases n,
{
    if n > 0 {
        lemma_sources(items, limits, n - 1);
    }
}

proof fn lemma_record_uris(sources: Seq<SourceView>, n: int)
    requires
        0 <= n <= sources.len(),
    ensures
        forall|i: int|
            0 <= i < n && (#[trigger] sources[i]).persistence_safe_uri is Some ==> record_uris(sources, n).contains(
                sources[i].persistence_safe_uri->0,
            ),
        forall|k: int|
            0 <= k < record_uris(sources, n).len() ==> exists|i: int|
                0 <= i < n && (#[trigger] sources[i]).persistence_safe_uri == Some(#[trigger] record_uris(sources, n)[k]),
    decreases n,
{
    if n > 0 {
        lemma_record_uris(sources, n - 1);
        let before = record_uris(sources, n - 1);
        let all = record_uris(sources, n);
        assert forall|i: int| 0 <= i < n && (#[trigger] sources[i]).persistence_safe_uri is Some implies all.contains(
            sources[i].persistence_safe_uri->0,
        ) by {
            let uri = sources[i].persistence_safe_uri->0;
            if i < n - 1 {
                let k = before.index_of(uri);
                assert(all[k] == uri);
            } else {
                assert(all[before.len() as int] == uri);
            }
        }
        assert forall|k: int| 0 <= k < all.len() implies exists|i: int|
            0 <= i < n && (#[trigger] sources[i]).persistence_safe_uri == Some(#[trigger] all[k]) by {
            if k < before.len() {
                assert(all[k] == before[k]);
                let i = choose|i: int|
                    0 <= i < n - 1 && (#[trigger] sources[i]).persistence_safe_uri == Some(before[k]);
                assert(sources[i].persistence_safe_uri == Some(all[k]));
            } else {
                assert(sources[n - 1].persistence_safe_uri == Some(all[k]));
            }
        }
    }
}

/// A task is imported with the addresses, sources and options that its document lists, in
/// their order; it has a source, or is a torrent. Of its options only `pause` may be set in
/// addition, and only `piece-length` left out, where a verified document gives it.
pub proof fn law_tasks_import_as_written(
    task: Json,
    force_pause: bool,
    findings: TaskFindings,
    states: Seq<String>,
    limits: SessionLimits,
    view: TaskView,
)
    requires
        task_of(task, force_pause, findings, states, limits) == Ok::<TaskView, HttpControlError>(view),
    ensures
        json_field(task, "uris"@) is None ==> view.uris.len() == 0,
        json_field(task, "uris"@) matches Some(list) ==> json_items(list) is Some && view.uris.len() == json_items(
            list,
        )->0.len() && forall|i: int|
            0 <= i < view.uris.len() ==> Some(#[trigger] view.uris[i]) == json_text(json_items(list)->0[i]),
        json_field(task, "sources"@) is None <==> view.sources is None,
        json_field(task, "sources"@) matches Some(list) ==> json_items(list) is Some && view.sources->0.len()
            == json_items(list)->0.len() && view.sources->0.len() > 0 && forall|i: int|
            0 <= i < view.sources->0.len() ==> source_of(json_items(list)->0[i], limits) == Ok::<
                SourceView,
                HttpControlError,
            >(#[trigger] view.sources->0[i]),
        view.sources matches Some(sources) ==> json_field(task, "uris"@) is Some ==> (forall|i: int|
            0 <= i < sources.len() && (#[trigger] sources[i]).persistence_safe_uri is Some ==> view.uris.contains(
                sources[i].persistence_safe_uri->0,
            )) && (forall|k: int|
            0 <= k < view.uris.len() ==> exists|i: int|
                0 <= i < sources.len() && (#[trigger] sources[i]).persistence_safe_uri == Some(
                    #[trigger] view.uris[k],
                )),
        view.bittorrent is Some <==> field_text(task, "kind"@) == Some("bittorrent"@),
        view.bittorrent is None ==> view.sources is Some || view.uris.len() > 0,
        view.verification is Some <==> json_field(task, "verification"@) is Some,
        view.verification is Some ==> findings.verification is Ok && view.verification == Some(
            findings.verification->Ok_0.ticket,
        ) && view.metalink_index == findings.verification->Ok_0.index,
        view.verification is None ==> view.metalink_index is None,
        task_options(task) matches Some(written) && {
            &&& forall|name: Seq<char>|
                name != "pause"@ && name != "piece-length"@ ==> (#[trigger] view.options.contains_key(name)
                    <==> written.contains_key(name)) && (written.contains_key(name) ==> view.options[name]
                    == written[name])
            &&& force_pause ==> view.options.contains_key("pause"@) && view.options["pause"@] == OptionForm::Flag(true)
            &&& !force_pause ==> (view.options.contains_key("pause"@) <==> written.contains_key("pause"@)) && (
            written.contains_key("pause"@) ==> view.options["pause"@] == written["pause"@])
            &&& view.verification is Some ==> !view.options.contains_key("piece-length"@)
            &&& view.verification is None ==> (view.options.contains_key("piece-length"@) <==> written.contains_key(
                "piece-length"@,
            )) && (written.contains_key("piece-length"@) ==> view.options["piece-length"@] == written["piece-length"@])
        },
{
    reveal_strlit("pause");
    reveal_strlit("piece-length");
    assert("pause"@.len() == 5);
    assert("piece-length"@.len() == 12);
    if let Some(list) = json_field(task, "uris"@) {
        if let Some(items) = json_items(list) {
            lemma_texts(items, items.len() as int);
        }
    }
    if let Some(list) = json_field(task, "sources"@) {
        if let Some(items) = json_items(list) {
            lemma_sources(items, limits, items.len() as int);
        }
    }
    if let Some(sources) = view.sources {
        lemma_record_uris(sources, sources.len() as int);
    }
}

/// A document's tasks are imported in its order, each paused and as the document writes
/// it, with what was found out of that very task.
pub proof fn law_documents_import_task_by_task(
    document: Json,
    findings: Seq<TaskFindings>,
    states: Seq<String>,
    limits: SessionLimits,
    tasks: Seq<TaskView>,
)
    requires
        document_tasks(document, findings, states, limits) == Ok::<Seq<TaskView>, HttpControlError>(tasks),
    ensures
        json_field(document, "formatVersion"@) == Some(Json::Unsigned(3)),
        json_field(document, "tasks"@) matches Some(list) && json_items(list) is Some && json_items(list)->0.len()
            == tasks.len() && forall|i: int|
            0 <= i < tasks.len() ==> task_of(
                json_items(list)->0[i],
                true,
                findings_at(findings, i),
                states,
                limits,
            ) == Ok::<TaskView, HttpControlError>(#[trigger] tasks[i]),
        tasks.len() <= limits.tasks,
{
    if let Some(Json::Array(items)) = json_field(document, "tasks"@) {
        lemma_tasks(items@, findings, states, limits, items@.len() as int);
    }
}

proof fn lemma_tasks(
    items: Seq<Json>,
    findings: Seq<TaskFindings>,
    states: Seq<String>,
    limits: SessionLimits,
    n: int,
)
    requires
        0 <= n <= items.len(),
    ensures
        tasks_in(items, findings, states, limits, n) matches Ok(tasks) ==> tasks.len() == n && forall|i: int|
            0 <= i < n ==> task_of(items[i], true, findings_at(findings, i), states, limits) == Ok::<
                TaskView,
                HttpControlError,
            >(#[trigger] tasks[i]),
    decreases n,
{
    if n > 0 {
        lemma_tasks(items, findings, states, limits, n - 1);
    }
}

/// A torrent is imported from the fields of its own names: its metainfo and what it goes on with as
/// the bytes that they spell, its magnet link as it is written, its files in their order.
pub proof fn law_torrents_import_as_written(
    value: Json,
    findings: TorrentFindings,
    resume_limit: int,
    torrent: TorrentView,
)
    requires
        torrent_view(value, findings, resume_limit) == Ok::<TorrentView, HttpControlError>(torrent),
    ensures
        field_text(value, "metainfo"@) is Some && base64_bytes(field_text(value, "metainfo"@)->0) == Some(
            torrent.metainfo,
        ),
        field_text(value, "resumeData"@) is Some && base64_bytes(field_text(value, "resumeData"@)->0) == Some(
            torrent.resume_data,
        ),
        torrent.resume_data.len() <= resume_limit,
        torrent.resume_data.len() > 0 ==> findings.resume,
        findings.binding,
        findings.identity == Some(torrent.identity),
        torrent.magnet is Some ==> field_text(value, "magnet"@) == torrent.magnet,
        torrent.magnet is None ==> json_field(value, "magnet"@) is None || json_field(value, "magnet"@) == Some(
            Json::Null,
        ),
        torrent.metainfo.len() > 0 ==> findings.info is Some && torrent.info == findings.info->0@,
        json_field(value, "files"@) matches Some(list) && json_items(list) is Some && torrent.files.len()
            == json_items(list)->0.len(),
        forall|i: int|
            0 <= i < torrent.files.len() ==> i < findings.files@.len() && findings.files@[i] == Some(
                #[trigger] torrent.files[i],
            ),
{
    if let Some(Json::Array(files)) = json_field(value, "files"@) {
        lemma_files(findings.files@, files@.len() as int);
    }
}

proof fn lemma_files(numbers: Seq<Option<u64>>, n: int)
    requires
        0 <= n,
    ensures
        first_files(numbers, n) matches Some(files) ==> files.len() == n && forall|i: int|
            0 <= i < n ==> i < numbers.len() && numbers[i] == Some(#[trigger] files[i]),
    decreases n,
{
    if n > 0 {
        lemma_files(numbers, n - 1);
    }
}

/// A call to import brings the session that it holds, in the form that it names; one that
/// names none is in JSON.
pub proof fn law_calls_to_import_are_understood(values: Vec<Json>, r: Result<ImportRequest, HttpControlError>)
    requires
        understood(Json::Array(values), r),
    ensures
        r matches Ok(request) ==> {
            &&& 1 <= values@.len() <= 2
            &&& values@.len() == 2 ==> json_text(values@[1]) == Some("json"@) || json_text(values@[1]) == Some("aria2"@)
            &&& request is Aria2 <==> values@.len() == 2 && json_text(values@[1]) == Some("aria2"@)
            &&& request matches ImportRequest::Aria2(text) ==> json_text(values@[0]) == Some(text@)
            &&& request matches ImportRequest::Unread(text) ==> json_text(values@[0]) == Some(text@)
            &&& request matches ImportRequest::Document(document) ==> document == values@[0] && !(document is Text)
        },
        values@.len() == 1 ==> r is Ok,
{
    reveal_strlit("json");
    reveal_strlit("aria2");
    assert("json"@.len() == 4);
    assert("aria2"@.len() == 5);
}

} // verus!
