//! Calls of the embedding interface: what each sends to the control plane, what
//! it is charged for, and how the answer is read.
use vstd::prelude::*;
use crate::control::HttpControlError;
use crate::download_options::{text_option, DownloadOptions};
use crate::encoding::{base64_of, base64_text};
use crate::json::{capped, json_gid, json_items, json_text, text_capacity, text_rooms, texts_hold, Json};
use crate::native_error::{native_budget_error, NativeApiError};
use crate::options::{with_option, OptionMapView, OptionObject, OptionScalar, OptionValue};
use crate::pairs::TextPair;
use crate::rpc_budget::{
    charged, holds_bytes, holds_slot, law_released_request_refunds_everything, moved, requested, reserved, slotted,
    with_slots, RpcAccounts, RpcByteCharge, RpcItem, RpcRequestLease, RpcResponseLease, RPC_RESULT_WORKSPACE_BYTES,
};
use crate::session::{Gid, HostKeyChallengeId, JournalHash};
use crate::task_status::{gids_of, read_gids};
use crate::text::byte_len;

verus! {

/// The error of an engine whose budget is used up.
pub open spec fn busy() -> NativeApiError {
    NativeApiError::Control(HttpControlError::Busy)
}

/// A request of so many bytes that then takes more, and the accounts with it.
pub open spec fn admitted(accounts: RpcAccounts, body: int, more: Option<usize>) -> Result<
    (RpcAccounts, RpcRequestLease),
    NativeApiError,
> {
    match requested(accounts, body) {
        Err(_) => Err(busy()),
        Ok((after, lease)) => match more {
            None => Ok((after, lease)),
            Some(bytes) => match reserved(after, lease.allocation, bytes as int) {
                Err(_) => Err(busy()),
                Ok((grown, allocation)) => Ok((grown, RpcRequestLease { allocation })),
            },
        },
    }
}

/// What a request holds can be given back.
pub open spec fn returnable(accounts: RpcAccounts, lease: RpcRequestLease) -> bool {
    &&& holds_slot(accounts, RpcItem::Request)
    &&& holds_bytes(accounts, lease.allocation.request, lease.allocation.charged as int)
    &&& lease.allocation.valid()
}

/// The accounts once a request has given back what it holds.
pub open spec fn returned(accounts: RpcAccounts, lease: RpcRequestLease) -> RpcAccounts {
    with_slots(
        moved(accounts, lease.allocation.request, -(lease.allocation.charged as int)),
        RpcItem::Request,
        -1,
    )
}

/// A call that was admitted and given up leaves the accounts as they were.
pub proof fn law_given_up_call_refunds_everything(accounts: RpcAccounts, body: nat, more: Option<usize>)
    requires
        accounts.valid(),
    ensures
        admitted(accounts, body as int, more) matches Ok((after, lease)) ==> returned(after, lease) == accounts,
{
    law_released_request_refunds_everything(accounts, body);
}

/// Admits a call; a refusal changes nothing.
pub fn take_call(accounts: &mut RpcAccounts, body: usize, more: Option<usize>) -> (r: Result<
    RpcRequestLease,
    NativeApiError,
>)
    requires
        old(accounts).valid(),
    ensures
        final(accounts).valid(),
        match admitted(*old(accounts), body as int, more) {
            Ok((after, lease)) => r == Ok::<RpcRequestLease, NativeApiError>(lease) && *final(accounts) == after,
            Err(error) => r == Err::<RpcRequestLease, NativeApiError>(error) && *final(accounts) == *old(accounts),
        },
        r matches Ok(lease) ==> returnable(*final(accounts), lease),
{
    proof {
        law_released_request_refunds_everything(*accounts, body as nat);
    }
    let lease = match accounts.try_request(body) {
        Ok(lease) => lease,
        Err(error) => return Err(native_budget_error(error)),
    };
    match more {
        None => Ok(lease),
        Some(bytes) => {
            let mut allocation = lease.allocation;
            match accounts.reserve(&mut allocation, bytes) {
                Ok(_) => Ok(RpcRequestLease { allocation }),
                Err(error) => {
                    accounts.release_request(lease);
                    Err(native_budget_error(error))
                },
            }
        },
    }
}

/// Lets a call take more; where it cannot, it gives everything back.
pub fn grow(accounts: &mut RpcAccounts, lease: RpcRequestLease, bytes: usize) -> (r: Result<
    RpcRequestLease,
    NativeApiError,
>)
    requires
        old(accounts).valid(),
        returnable(*old(accounts), lease),
    ensures
        final(accounts).valid(),
        match reserved(*old(accounts), lease.allocation, bytes as int) {
            Ok((after, allocation)) => r == Ok::<RpcRequestLease, NativeApiError>(RpcRequestLease { allocation })
                && *final(accounts) == after,
            Err(_) => r == Err::<RpcRequestLease, NativeApiError>(busy()) && *final(accounts) == returned(
                *old(accounts),
                lease,
            ),
        },
        r matches Ok(lease) ==> returnable(*final(accounts), lease),
{
    let mut allocation = lease.allocation;
    match accounts.reserve(&mut allocation, bytes) {
        Ok(_) => Ok(RpcRequestLease { allocation }),
        Err(error) => {
            accounts.release_request(lease);
            Err(native_budget_error(error))
        },
    }
}

/// Gives a call up.
pub fn give_up(accounts: &mut RpcAccounts, lease: RpcRequestLease)
    requires
        old(accounts).valid(),
        returnable(*old(accounts), lease),
    ensures
        final(accounts).valid(),
        *final(accounts) == returned(*old(accounts), lease),
{
    accounts.release_request(lease);
}

/// A call that is answered: its answer's place and the room to read it in.
#[derive(Clone, Copy, Debug, PartialEq, Eq, Structural)]
pub struct OpenCall {
    pub response: RpcResponseLease,
    pub workspace: RpcByteCharge,
}

/// The accounts of an admitted call once it may be sent.
pub open spec fn opened(accounts: RpcAccounts, lease: RpcRequestLease) -> Result<
    (RpcAccounts, OpenCall),
    NativeApiError,
> {
    let workspace = RpcByteCharge { request: false, bytes: RPC_RESULT_WORKSPACE_BYTES };
    match slotted(accounts, RpcItem::Response) {
        Err(_) => Err(busy()),
        Ok(after) => match charged(after, workspace) {
            Err(_) => Err(busy()),
            Ok(after) => Ok(
                (after, OpenCall { response: RpcResponseLease { request: Some(lease) }, workspace }),
            ),
        },
    }
}

/// Takes the place and the room for an answer; a refusal gives everything back.
pub fn open_call(accounts: &mut RpcAccounts, lease: RpcRequestLease) -> (r: Result<OpenCall, NativeApiError>)
    requires
        old(accounts).valid(),
        returnable(*old(accounts), lease),
    ensures
        final(accounts).valid(),
        match opened(*old(accounts), lease) {
            Ok((after, call)) => r == Ok::<OpenCall, NativeApiError>(call) && *final(accounts) == after,
            Err(error) => r == Err::<OpenCall, NativeApiError>(error) && *final(accounts) == returned(
                *old(accounts),
                lease,
            ),
        },
{
    let ghost before = *accounts;
    let response = match accounts.response(Some(lease)) {
        Ok(response) => response,
        Err(error) => {
            accounts.release_request(lease);
            return Err(native_budget_error(error));
        },
    };
    match accounts.workspace() {
        Ok(workspace) => Ok(OpenCall { response, workspace }),
        Err(error) => {
            accounts.give_slot(RpcItem::Response);
            assert(*accounts == before);
            accounts.release_request(lease);
            Err(native_budget_error(error))
        },
    }
}

/// A parameter of a call.
#[derive(Debug)]
pub enum CallParam {
    Word(&'static str),
    Text(String),
    Gid(Gid),
    Signed(i64),
    Unsigned(u64),
    Texts(Vec<String>),
    Options(OptionObject),
    Settings(Vec<TextPair>),
    /// An object that says whether to restart.
    Restart(bool),
    Challenge(HostKeyChallengeId),
    Fingerprint(JournalHash),
    /// Bytes, as text.
    Encoded(String),
}

/// A call to the control plane.
#[derive(Debug)]
pub struct ControlCall {
    pub method: &'static str,
    pub params: Vec<CallParam>,
}

/// A call about one task.
pub open spec fn about(method: &'static str, gid: Gid, call: ControlCall) -> bool {
    call.method == method && call.params@ == seq![CallParam::Gid(gid)]
}

/// A call about one task: `aria2.pause`, `aria2.unpause`, `aria2.remove` and the
/// like.
pub fn control(method: &'static str, gid: Gid) -> (r: ControlCall)
    ensures
        about(method, gid, r),
{
    let mut params: Vec<CallParam> = Vec::new();
    params.push(CallParam::Gid(gid));
    assert(params@ =~= seq![CallParam::Gid(gid)]);
    ControlCall { method, params }
}

/// A call that pauses every task.
pub fn pause_all(force: bool) -> (r: ControlCall)
    ensures
        r.params@ == Seq::<CallParam>::empty(),
        r.method == (if force {
            "aria2.forcePauseAll"
        } else {
            "aria2.pauseAll"
        }),
{
    ControlCall {
        method: if force {
            "aria2.forcePauseAll"
        } else {
            "aria2.pauseAll"
        },
        params: Vec::new(),
    }
}

/// A host key to approve.
#[derive(Clone, Copy, Debug, PartialEq, Eq, Structural)]
pub struct ApproveHostKey {
    pub gid: Gid,
    pub challenge: HostKeyChallengeId,
    pub fingerprint_sha256: JournalHash,
}

impl ApproveHostKey {
    /// An approval by what its texts spell, if they do.
    pub fn from_text(gid: Gid, challenge: Option<HostKeyChallengeId>, fingerprint: Option<JournalHash>) -> (r: Result<
        Self,
        NativeApiError,
    >)
        ensures
            r == (if challenge is None {
                Err::<Self, NativeApiError>(
                    NativeApiError::InvalidConfiguration("challenge id must be 32 hexadecimal characters"),
                )
            } else if fingerprint is None {
                Err::<Self, NativeApiError>(
                    NativeApiError::InvalidConfiguration("invalid SHA-256 host-key fingerprint"),
                )
            } else {
                Ok::<Self, NativeApiError>(
                    ApproveHostKey { gid, challenge: challenge->0, fingerprint_sha256: fingerprint->0 },
                )
            }),
    {
        let challenge = match challenge {
            Some(challenge) => challenge,
            None => {
                return Err(
                    NativeApiError::InvalidConfiguration("challenge id must be 32 hexadecimal characters"),
                );
            },
        };
        match fingerprint {
            Some(fingerprint_sha256) => Ok(ApproveHostKey { gid, challenge, fingerprint_sha256 }),
            None => Err(NativeApiError::InvalidConfiguration("invalid SHA-256 host-key fingerprint")),
        }
    }

    /// The call that approves it.
    pub fn call(&self) -> (r: ControlCall)
        ensures
            r.method == "ariax.approveHostKey",
            r.params@ == seq![
                CallParam::Gid(self.gid),
                CallParam::Challenge(self.challenge),
                CallParam::Fingerprint(self.fingerprint_sha256),
            ],
    {
        let mut params: Vec<CallParam> = Vec::new();
        params.push(CallParam::Gid(self.gid));
        params.push(CallParam::Challenge(self.challenge));
        params.push(CallParam::Fingerprint(self.fingerprint_sha256));
        assert(params@ =~= seq![
            CallParam::Gid(self.gid),
            CallParam::Challenge(self.challenge),
            CallParam::Fingerprint(self.fingerprint_sha256),
        ]);
        ControlCall { method: "ariax.approveHostKey", params }
    }
}

/// What rooms come to, with something on top of each.
pub open spec fn padded_rooms(rooms: Seq<usize>, padding: int) -> int
    decreases rooms.len(),
{
    if rooms.len() == 0 {
        0
    } else {
        padded_rooms(rooms.drop_last(), padding) + rooms.last() + padding
    }
}

/// What sources take when they are sent, by the places that their list has, the
/// rooms of their texts and the room of the output's name.
pub open spec fn sources_bytes(places: usize, rooms: Seq<usize>, named: usize) -> int {
    capped(
        64 * 1024 + capped(places * vstd::layout::size_of::<String>()) + padded_rooms(rooms, 1024) + named,
    )
}

/// What sources take when they are sent.
pub fn sources_input_bytes(places: usize, rooms: &Vec<usize>, named: usize) -> (r: usize)
    ensures
        r == sources_bytes(places, rooms@, named),
{
    let listed: usize = match places.checked_mul(core::mem::size_of::<String>()) {
        Some(product) => product,
        None => usize::MAX,
    };
    let base: usize = 64 * 1024;
    let mut bytes: usize = base.saturating_add(listed);
    let mut i: usize = 0;
    while i < rooms.len()
        invariant
            i <= rooms.len(),
            listed == capped(places * vstd::layout::size_of::<String>()),
            padded_rooms(rooms@.take(i as int), 1024) >= 0,
            bytes == capped(64 * 1024 + listed + padded_rooms(rooms@.take(i as int), 1024)),
        decreases rooms.len() - i,
    {
        assert(rooms@.take(i as int + 1).drop_last() =~= rooms@.take(i as int));
        bytes = bytes.saturating_add(rooms[i].saturating_add(1024));
        i = i + 1;
    }
    assert(rooms@.take(i as int) =~= rooms@);
    bytes.saturating_add(named)
}

/// The places that a list has, by `Vec::capacity`: at least its length.
#[verifier::external_body]
pub(crate) fn list_capacity<T>(list: &Vec<T>) -> (r: usize)
    ensures
        r >= list@.len(),
{
    list.capacity()
}

/// Whether a text has such a room: none where there is no text.
pub open spec fn holds_text(room: usize, text: Option<String>) -> bool {
    match text {
        Some(text) => room >= byte_len(text@),
        None => room == 0,
    }
}

/// Whether sources take so many bytes for some rooms that hold them.
pub open spec fn sources_cost(uris: Seq<String>, output: Option<String>, bytes: usize) -> bool {
    exists|places: usize, rooms: Seq<usize>, named: usize|
        places >= uris.len() && texts_hold(rooms, uris) && holds_text(named, output) && bytes
            == #[trigger] sources_bytes(places, rooms, named)
}

/// What sources take when they are sent, with the name of the output. Lists and
/// texts are counted with the room that they have, which is at least what they
/// hold.
pub fn source_input_bytes(uris: &Vec<String>, output: &Option<String>) -> (r: usize)
    ensures
        sources_cost(uris@, *output, r),
{
    let places = list_capacity(uris);
    let rooms = text_rooms(uris);
    let named: usize = match output {
        Some(output) => text_capacity(output),
        None => 0,
    };
    let r = sources_input_bytes(places, &rooms, named);
    assert(r == sources_bytes(places, rooms@, named));
    r
}

/// Sources to download.
pub struct AddUri {
    pub uris: Vec<String>,
    pub options: DownloadOptions,
}

/// Whether there are as many sources as a task may have.
pub open spec fn source_count_fits(count: nat, most: usize) -> bool {
    0 < count <= most
}

/// The error of too few or too many sources.
pub open spec fn source_count_error() -> NativeApiError {
    NativeApiError::InvalidConfiguration("URI count is outside the supported bound")
}

/// What comes of admitting sources that take so many bytes: a refusal changes
/// nothing.
pub open spec fn admits_uris(
    before: RpcAccounts,
    request: AddUri,
    input_bytes: usize,
    most_sources: usize,
    after: RpcAccounts,
    r: Result<(ControlCall, RpcRequestLease), NativeApiError>,
) -> bool {
    &&& r is Err ==> after == before
    &&& if !source_count_fits(request.uris@.len(), most_sources) {
        r == Err::<(ControlCall, RpcRequestLease), NativeApiError>(source_count_error())
    } else {
        match admitted(before, 0, Some(input_bytes)) {
            Err(error) => r == Err::<(ControlCall, RpcRequestLease), NativeApiError>(error),
            Ok((charged, lease)) => match request.options.option_map(true) {
                Err(error) => r == Err::<(ControlCall, RpcRequestLease), NativeApiError>(error),
                Ok(options) => r is Ok && r->Ok_0.1 == lease && after == charged && sends_sources(
                    r->Ok_0.0,
                    request.uris,
                    options,
                ),
            },
        }
    }
}

/// Admits sources for download and makes the call; a refusal changes nothing.
pub fn add_sized_uri(
    accounts: &mut RpcAccounts,
    request: AddUri,
    input_bytes: usize,
    most_sources: usize,
) -> (r: Result<(ControlCall, RpcRequestLease), NativeApiError>)
    requires
        old(accounts).valid(),
    ensures
        final(accounts).valid(),
        admits_uris(*old(accounts), request, input_bytes, most_sources, *final(accounts), r),
{
    if request.uris.len() == 0 || request.uris.len() > most_sources {
        return Err(NativeApiError::InvalidConfiguration("URI count is outside the supported bound"));
    }
    proof {
        law_given_up_call_refunds_everything(*accounts, 0, Some(input_bytes));
    }
    let lease = match take_call(accounts, 0, Some(input_bytes)) {
        Ok(lease) => lease,
        Err(error) => return Err(error),
    };
    let options = match request.options.into_value(true) {
        Ok(options) => options,
        Err(error) => {
            give_up(accounts, lease);
            return Err(error);
        },
    };
    let mut params: Vec<CallParam> = Vec::new();
    params.push(CallParam::Texts(request.uris));
    params.push(CallParam::Options(options));
    Ok((ControlCall { method: "aria2.addUri", params }, lease))
}

/// Admits sources for download, charges what they take and makes the call; a refusal
/// changes nothing.
pub fn add_uri(accounts: &mut RpcAccounts, request: AddUri, most_sources: usize) -> (r: Result<
    (ControlCall, RpcRequestLease),
    NativeApiError,
>)
    requires
        old(accounts).valid(),
    ensures
        final(accounts).valid(),
        exists|bytes: usize| #[trigger]
            sources_cost(request.uris@, request.options.output, bytes) && admits_uris(
                *old(accounts),
                request,
                bytes,
                most_sources,
                *final(accounts),
                r,
            ),
{
    let bytes = source_input_bytes(&request.uris, &request.options.output);
    add_sized_uri(accounts, request, bytes, most_sources)
}

/// A call that sends sources and options.
pub open spec fn sends_sources(call: ControlCall, uris: Vec<String>, options: OptionMapView) -> bool {
    &&& call.method == "aria2.addUri"
    &&& call.params@.len() == 2
    &&& call.params@[0] == CallParam::Texts(uris)
    &&& call.params@[1] matches CallParam::Options(sent) && sent@ == options
}

/// The GID that admitting sources returns.
pub fn added_uri(value: &Json) -> (r: Result<Gid, NativeApiError>)
    ensures
        r == (if json_text(*value) is None {
            Err::<Gid, NativeApiError>(NativeApiError::InvalidResponse("addUri did not return a GID"))
        } else {
            match json_gid(*value) {
                Some(gid) => Ok::<Gid, NativeApiError>(gid),
                None => Err::<Gid, NativeApiError>(NativeApiError::InvalidResponse("addUri returned an invalid GID")),
            }
        }),
{
    if value.as_text().is_none() {
        return Err(NativeApiError::InvalidResponse("addUri did not return a GID"));
    }
    match value.as_gid() {
        Some(gid) => Ok(gid),
        None => Err(NativeApiError::InvalidResponse("addUri returned an invalid GID")),
    }
}

/// Which files of a Metalink document to take.
#[derive(Debug)]
pub struct MetalinkSelection {
    pub base_uri: Option<String>,
    pub select_file: Option<String>,
    pub language: Option<String>,
    pub os: Option<String>,
    pub version: Option<String>,
    pub location: Option<String>,
    /// The code of the protocol.
    pub preferred_protocol: Option<String>,
    pub unique_protocol: Option<bool>,
}

impl MetalinkSelection {
    /// Options with the selection.
    pub open spec fn option_map(self, m: OptionMapView) -> OptionMapView {
        let m = with_option(m, "metalink-base-uri"@, text_option(self.base_uri));
        let m = with_option(m, "select-file"@, text_option(self.select_file));
        let m = with_option(m, "metalink-language"@, text_option(self.language));
        let m = with_option(m, "metalink-os"@, text_option(self.os));
        let m = with_option(m, "metalink-version"@, text_option(self.version));
        let m = with_option(m, "metalink-location"@, text_option(self.location));
        let m = with_option(m, "metalink-preferred-protocol"@, text_option(self.preferred_protocol));
        with_option(
            m,
            "metalink-enable-unique-protocol"@,
            match self.unique_protocol {
                Some(unique) => Some(OptionScalar::Flag(unique)),
                None => None,
            },
        )
    }

    fn put_into(self, options: &mut OptionObject)
        requires
            old(options).valid(),
        ensures
            final(options).valid(),
            final(options)@ == self.option_map(old(options)@),
    {
        if let Some(value) = self.base_uri {
            options.insert("metalink-base-uri".to_owned(), OptionValue::Text(value));
        }
        if let Some(value) = self.select_file {
            options.insert("select-file".to_owned(), OptionValue::Text(value));
        }
        if let Some(value) = self.language {
            options.insert("metalink-language".to_owned(), OptionValue::Text(value));
        }
        if let Some(value) = self.os {
            options.insert("metalink-os".to_owned(), OptionValue::Text(value));
        }
        if let Some(value) = self.version {
            options.insert("metalink-version".to_owned(), OptionValue::Text(value));
        }
        if let Some(value) = self.location {
            options.insert("metalink-location".to_owned(), OptionValue::Text(value));
        }
        if let Some(value) = self.preferred_protocol {
            options.insert("metalink-preferred-protocol".to_owned(), OptionValue::Text(value));
        }
        if let Some(unique) = self.unique_protocol {
            options.insert("metalink-enable-unique-protocol".to_owned(), OptionValue::Flag(unique));
        }
    }
}

/// A Metalink document to download from.
pub struct AddMetalink {
    pub bytes: Vec<u8>,
    pub options: DownloadOptions,
    pub selection: MetalinkSelection,
    pub position: Option<i64>,
}

/// What a document takes when it is sent, with the room that it has: its text is
/// a third longer.
pub open spec fn metalink_bytes(capacity: usize, length: usize) -> usize {
    capped(capped(capacity + (capped(4 * length) + 2) / 3) + 256 * 1024) as usize
}

/// What a document takes when it is sent.
pub fn metalink_input_bytes(capacity: usize, length: usize) -> (r: usize)
    ensures
        r == metalink_bytes(capacity, length),
{
    let quadrupled: usize = match length.checked_mul(4) {
        Some(product) => product,
        None => usize::MAX,
    };
    let encoded: usize = quadrupled / 3 + if quadrupled % 3 == 0 {
        0
    } else {
        1
    };
    capacity.saturating_add(encoded).saturating_add(256 * 1024)
}

/// The place in the queue that a call asks for: the end where it names none.
pub open spec fn asked_position(position: Option<i64>) -> i64 {
    match position {
        Some(position) => position,
        None => -1i64,
    }
}

fn position_param(position: Option<i64>) -> (r: CallParam)
    ensures
        r == CallParam::Signed(asked_position(position)),
{
    match position {
        Some(position) => CallParam::Signed(position),
        None => CallParam::Signed(-1),
    }
}

/// A call that sends a Metalink document.
pub open spec fn sends_metalink(call: ControlCall, bytes: Seq<u8>, options: OptionMapView, position: i64) -> bool {
    &&& call.method == "aria2.addMetalink"
    &&& call.params@.len() == 3
    &&& call.params@[0] is Encoded && call.params@[0]->Encoded_0@ == base64_of(bytes)
    &&& call.params@[1] is Options && call.params@[1]->Options_0@ == options
    &&& call.params@[2] == CallParam::Signed(position)
}

/// What comes of admitting a Metalink document that takes so many bytes: a refusal
/// changes nothing.
pub open spec fn admits_metalink(
    before: RpcAccounts,
    request: AddMetalink,
    input_bytes: usize,
    most_bytes: usize,
    after: RpcAccounts,
    r: Result<(ControlCall, RpcRequestLease), NativeApiError>,
) -> bool {
    &&& r is Err ==> after == before
    &&& if request.bytes@.len() > most_bytes {
        r == Err::<(ControlCall, RpcRequestLease), NativeApiError>(
            NativeApiError::InvalidConfiguration("Metalink exceeds document limit"),
        )
    } else {
        match admitted(before, 0, Some(input_bytes)) {
            Err(error) => r == Err::<(ControlCall, RpcRequestLease), NativeApiError>(error),
            Ok((charged, lease)) => match request.options.option_map(true) {
                Err(error) => r == Err::<(ControlCall, RpcRequestLease), NativeApiError>(error),
                Ok(options) => r is Ok && r->Ok_0.1 == lease && after == charged && sends_metalink(
                    r->Ok_0.0,
                    request.bytes@,
                    request.selection.option_map(options),
                    asked_position(request.position),
                ),
            },
        }
    }
}

/// Admits a Metalink document and makes the call; a refusal changes nothing.
pub fn add_sized_metalink(
    accounts: &mut RpcAccounts,
    request: AddMetalink,
    input_bytes: usize,
    most_bytes: usize,
) -> (r: Result<(ControlCall, RpcRequestLease), NativeApiError>)
    requires
        old(accounts).valid(),
        most_bytes <= usize::MAX / 4,
    ensures
        final(accounts).valid(),
        admits_metalink(*old(accounts), request, input_bytes, most_bytes, *final(accounts), r),
{
    if request.bytes.len() > most_bytes {
        return Err(NativeApiError::InvalidConfiguration("Metalink exceeds document limit"));
    }
    proof {
        law_given_up_call_refunds_everything(*accounts, 0, Some(input_bytes));
    }
    let lease = match take_call(accounts, 0, Some(input_bytes)) {
        Ok(lease) => lease,
        Err(error) => return Err(error),
    };
    let mut options = match request.options.into_value(true) {
        Ok(options) => options,
        Err(error) => {
            give_up(accounts, lease);
            return Err(error);
        },
    };
    request.selection.put_into(&mut options);
    let mut params: Vec<CallParam> = Vec::new();
    params.push(CallParam::Encoded(base64_text(request.bytes.as_slice())));
    params.push(CallParam::Options(options));
    params.push(position_param(request.position));
    Ok((ControlCall { method: "aria2.addMetalink", params }, lease))
}

/// Admits a Metalink document, charges what it takes and makes the call; a refusal
/// changes nothing.
pub fn add_metalink(accounts: &mut RpcAccounts, request: AddMetalink, most_bytes: usize) -> (r: Result<
    (ControlCall, RpcRequestLease),
    NativeApiError,
>)
    requires
        old(accounts).valid(),
        most_bytes <= usize::MAX / 4,
    ensures
        final(accounts).valid(),
        exists|capacity: usize|
            capacity >= request.bytes@.len() && admits_metalink(
                *old(accounts),
                request,
                #[trigger] metalink_bytes(capacity, request.bytes.len()),
                most_bytes,
                *final(accounts),
                r,
            ),
{
    let capacity = list_capacity(&request.bytes);
    let bytes = metalink_input_bytes(capacity, request.bytes.len());
    add_sized_metalink(accounts, request, bytes, most_bytes)
}

/// The GIDs that a call returns: `not_a_list` where it returns no list, and
/// `not_a_gid` where one of its items is none.
pub fn gid_list(value: &Json, not_a_list: &'static str, not_a_gid: &'static str) -> (r: Result<
    Vec<Gid>,
    NativeApiError,
>)
    ensures
        match json_items(*value) {
            None => r == Err::<Vec<Gid>, NativeApiError>(NativeApiError::InvalidResponse(not_a_list)),
            Some(items) => match gids_of(items, items.len() as int) {
                Some(gids) => r is Ok && r->Ok_0@ == gids,
                None => r == Err::<Vec<Gid>, NativeApiError>(NativeApiError::InvalidResponse(not_a_gid)),
            },
        },
{
    match value {
        Json::Array(items) => match read_gids(items) {
            Some(gids) => Ok(gids),
            None => Err(NativeApiError::InvalidResponse(not_a_gid)),
        },
        _ => Err(NativeApiError::InvalidResponse(not_a_list)),
    }
}

} // verus!
