//! Uploading a plugin archive as a release asset: the order of the requests
//! to the forge, decided from the answer to the previous one.

use vstd::prelude::*;
use crate::publish::{
    AssetRecord, assets_api_seq, assets_to_replace, matching_asset_ids, release_asset_url,
    release_assets_url, release_body, release_by_tag_url, release_display_url,
    release_display_url_seq, release_tag, release_tag_seq, release_title, releases_api_seq,
    releases_api_url,
};
use crate::text::signed_decimal_seq;

verus! {

/// The fields `id` (as an `i64`) and `url` (as a string) of a JSON object,
/// as `serde_json` reads them from a reply body; none when the body is not
/// JSON.
pub uninterp spec fn release_fields_of(body: Seq<char>) -> Option<(Option<i64>, Option<Seq<char>>)>;

/// Calls `serde_json::from_str::<serde_json::Value>` on a reply body and
/// reads its fields `id` with `Value::as_i64` and `url` with
/// `Value::as_str`. The result is named `release_fields_of(body)`.
#[verifier::external_body]
fn parse_release_fields(body: &str) -> (r: Option<(Option<i64>, Option<String>)>)
    ensures
        r matches Some(p) ==> release_fields_of(body@) == Some((p.0, match p.1 {
            Some(u) => Some(u@),
            None => None::<Seq<char>>,
        })),
        r is None ==> release_fields_of(body@) is None,
{
    match serde_json::from_str::<serde_json::Value>(body) {
        Ok(v) => Some((v["id"].as_i64(), v["url"].as_str().map(|u| u.to_string()))),
        Err(_) => None,
    }
}

/// What an upload is about: where the forge is, the plugin and its author.
pub struct UploadJob {
    /// The API address of the forge.
    pub api: String,
    /// The web address of the forge.
    pub base: String,
    pub user: String,
    pub repo: String,
    pub name: String,
    pub version: String,
    pub author: String,
}

/// Where an upload stands.
pub enum UploadState {
    /// Nothing is asked yet.
    Start,
    /// The release of the tag was asked for.
    AwaitCheck,
    /// A new release was asked to be created.
    AwaitCreate,
    /// The assets of the release were asked for.
    AwaitAssets { release_id: i64, release_url: String },
    /// An old archive is being deleted; `pending` are the ones after it.
    Deleting { release_id: i64, release_url: String, pending: Vec<i64> },
    /// The archive is being uploaded.
    AwaitUpload { release_id: i64, release_url: String },
    /// The upload is over.
    Finished,
}

/// What the last request gave.
pub enum UploadEvent {
    /// The upload begins.
    Begin,
    /// The forge answered: its status, its status text, its body when it
    /// could be read, and the body read as a list of assets when it is one.
    Reply { status: u16, status_text: String, body: Option<String>, assets: Option<Vec<AssetRecord>> },
    /// The request failed, with the client's message.
    RequestFailed(String),
}

/// Why an upload stops.
pub enum UploadError {
    /// A reply body could not be read.
    UnreadableReply,
    /// A reply body is not JSON.
    InvalidJson,
    /// The existing release has no id.
    NoReleaseIdFound,
    /// The created release came back without an id.
    NoReleaseIdReturned,
    /// A request failed.
    RequestFailed(String),
    /// The forge did not create the release.
    CreateRefused { status: u16, status_text: String, body: String },
    /// The forge did not take the archive.
    UploadRefused { status: u16, status_text: String, body: String },
    /// An event came that the upload does not wait for.
    OutOfOrder,
}

/// The request to send next.
pub enum UploadRequest {
    /// Ask for the release with the plugin's tag.
    GetRelease(String),
    /// Create the release.
    CreateRelease { url: String, tag_name: String, title: String, body: String },
    /// Ask for the assets of the release.
    ListAssets(String),
    /// Delete an old archive.
    DeleteAsset(String),
    /// Upload the archive under the name `asset_name`.
    UploadArchive { url: String, asset_name: String },
    /// Nothing more: the archive is published.
    Done,
    /// Stop with this error.
    Fail(UploadError),
}

/// The lines to print, then the request to send.
pub struct UploadAction {
    pub notes: Vec<String>,
    pub request: UploadRequest,
}

pub enum UploadStateModel {
    Start,
    AwaitCheck,
    AwaitCreate,
    AwaitAssets { release_id: i64, release_url: Seq<char> },
    Deleting { release_id: i64, release_url: Seq<char>, pending: Seq<i64> },
    AwaitUpload { release_id: i64, release_url: Seq<char> },
    Finished,
}

pub enum UploadEventModel {
    Begin,
    Reply { status: u16, status_text: Seq<char>, body: Option<Seq<char>>, assets: Option<Seq<AssetRecord>> },
    RequestFailed(Seq<char>),
}

pub enum UploadErrorModel {
    UnreadableReply,
    InvalidJson,
    NoReleaseIdFound,
    NoReleaseIdReturned,
    RequestFailed(Seq<char>),
    CreateRefused { status: u16, status_text: Seq<char>, body: Seq<char> },
    UploadRefused { status: u16, status_text: Seq<char>, body: Seq<char> },
    OutOfOrder,
}

pub enum UploadRequestModel {
    GetRelease(Seq<char>),
    CreateRelease { url: Seq<char>, tag_name: Seq<char>, title: Seq<char>, body: Seq<char> },
    ListAssets(Seq<char>),
    DeleteAsset(Seq<char>),
    UploadArchive { url: Seq<char>, asset_name: Seq<char> },
    Done,
    Fail(UploadErrorModel),
}

pub struct UploadActionModel {
    pub notes: Seq<Seq<char>>,
    pub request: UploadRequestModel,
}

pub open spec fn option_text(o: Option<String>) -> Option<Seq<char>> {
    match o {
        Some(s) => Some(s@),
        None => None,
    }
}

impl View for UploadState {
    type V = UploadStateModel;

    open spec fn view(&self) -> UploadStateModel {
        match self {
            UploadState::Start => UploadStateModel::Start,
            UploadState::AwaitCheck => UploadStateModel::AwaitCheck,
            UploadState::AwaitCreate => UploadStateModel::AwaitCreate,
            UploadState::AwaitAssets { release_id, release_url } => UploadStateModel::AwaitAssets {
                release_id: *release_id,
                release_url: release_url@,
            },
            UploadState::Deleting { release_id, release_url, pending } => UploadStateModel::Deleting {
                release_id: *release_id,
                release_url: release_url@,
                pending: pending@,
            },
            UploadState::AwaitUpload { release_id, release_url } => UploadStateModel::AwaitUpload {
                release_id: *release_id,
                release_url: release_url@,
            },
            UploadState::Finished => UploadStateModel::Finished,
        }
    }
}

impl View for UploadEvent {
    type V = UploadEventModel;

    open spec fn view(&self) -> UploadEventModel {
        match self {
            UploadEvent::Begin => UploadEventModel::Begin,
            UploadEvent::Reply { status, status_text, body, assets } => UploadEventModel::Reply {
                status: *status,
                status_text: status_text@,
                body: option_text(*body),
                assets: match assets {
                    Some(v) => Some(v@),
                    None => None,
                },
            },
            UploadEvent::RequestFailed(m) => UploadEventModel::RequestFailed(m@),
        }
    }
}

impl View for UploadError {
    type V = UploadErrorModel;

    open spec fn view(&self) -> UploadErrorModel {
        match self {
            UploadError::UnreadableReply => UploadErrorModel::UnreadableReply,
            UploadError::InvalidJson => UploadErrorModel::InvalidJson,
            UploadError::NoReleaseIdFound => UploadErrorModel::NoReleaseIdFound,
            UploadError::NoReleaseIdReturned => UploadErrorModel::NoReleaseIdReturned,
            UploadError::RequestFailed(m) => UploadErrorModel::RequestFailed(m@),
            UploadError::CreateRefused { status, status_text, body } => UploadErrorModel::CreateRefused {
                status: *status,
                status_text: status_text@,
                body: body@,
            },
            UploadError::UploadRefused { status, status_text, body } => UploadErrorModel::UploadRefused {
                status: *status,
                status_text: status_text@,
                body: body@,
            },
            UploadError::OutOfOrder => UploadErrorModel::OutOfOrder,
        }
    }
}

impl View for UploadRequest {
    type V = UploadRequestModel;

    open spec fn view(&self) -> UploadRequestModel {
        match self {
            UploadRequest::GetRelease(u) => UploadRequestModel::GetRelease(u@),
            UploadRequest::CreateRelease { url, tag_name, title, body } => UploadRequestModel::CreateRelease {
                url: url@,
                tag_name: tag_name@,
                title: title@,
                body: body@,
            },
            UploadRequest::ListAssets(u) => UploadRequestModel::ListAssets(u@),
            UploadRequest::DeleteAsset(u) => UploadRequestModel::DeleteAsset(u@),
            UploadRequest::UploadArchive { url, asset_name } => UploadRequestModel::UploadArchive {
                url: url@,
                asset_name: asset_name@,
            },
            UploadRequest::Done => UploadRequestModel::Done,
            UploadRequest::Fail(e) => UploadRequestModel::Fail(e@),
        }
    }
}

impl View for UploadAction {
    type V = UploadActionModel;

    open spec fn view(&self) -> UploadActionModel {
        UploadActionModel { notes: self.notes.deep_view(), request: self.request@ }
    }
}

/// The tag of the release of the job's plugin version.
pub open spec fn job_tag(job: UploadJob) -> Seq<char> {
    release_tag_seq(job.name@, job.version@)
}

/// The name of the job's archive.
pub open spec fn job_asset(job: UploadJob) -> Seq<char> {
    job_tag(job) + ".zip"@
}

/// The API address of the assets of release `id`.
pub open spec fn job_assets_url(job: UploadJob, id: i64) -> Seq<char> {
    assets_api_seq(job.api@, job.user@, job.repo@, id as int)
}

pub open spec fn stop(notes: Seq<Seq<char>>, e: UploadErrorModel) -> (UploadStateModel, UploadActionModel) {
    (UploadStateModel::Finished, UploadActionModel { notes, request: UploadRequestModel::Fail(e) })
}

/// After a release's reply was read: list its assets, or stop when the body
/// is not JSON or names no id.
pub open spec fn after_release(
    job: UploadJob,
    fields: Option<(Option<i64>, Option<Seq<char>>)>,
    notes: Seq<Seq<char>>,
    missing: UploadErrorModel,
) -> (UploadStateModel, UploadActionModel) {
    match fields {
        None => stop(notes, UploadErrorModel::InvalidJson),
        Some((None, _)) => stop(notes, missing),
        Some((Some(id), url)) => (
            UploadStateModel::AwaitAssets {
                release_id: id,
                release_url: match url {
                    Some(u) => u,
                    None => seq![],
                },
            },
            UploadActionModel { notes, request: UploadRequestModel::ListAssets(job_assets_url(job, id)) },
        ),
    }
}

/// Upload the archive.
pub open spec fn start_upload(job: UploadJob, id: i64, url: Seq<char>, notes: Seq<Seq<char>>) -> (
    UploadStateModel,
    UploadActionModel,
) {
    (
        UploadStateModel::AwaitUpload { release_id: id, release_url: url },
        UploadActionModel {
            notes: notes.push("   Uploading "@ + job_asset(job) + "..."@),
            request: UploadRequestModel::UploadArchive { url: job_assets_url(job, id), asset_name: job_asset(job) },
        },
    )
}

/// Delete the next old archive, or upload when none is left.
pub open spec fn delete_or_upload(
    job: UploadJob,
    id: i64,
    url: Seq<char>,
    pending: Seq<i64>,
    notes: Seq<Seq<char>>,
) -> (UploadStateModel, UploadActionModel) {
    if pending.len() > 0 {
        (
            UploadStateModel::Deleting { release_id: id, release_url: url, pending: pending.drop_first() },
            UploadActionModel {
                notes,
                request: UploadRequestModel::DeleteAsset(
                    job_assets_url(job, id) + "/"@ + signed_decimal_seq(pending[0] as int),
                ),
            },
        )
    } else {
        start_upload(job, id, url, notes)
    }
}

/// Create the release of the tag.
pub open spec fn create_release(job: UploadJob) -> (UploadStateModel, UploadActionModel) {
    (
        UploadStateModel::AwaitCreate,
        UploadActionModel {
            notes: seq!["   Creating release..."@],
            request: UploadRequestModel::CreateRelease {
                url: releases_api_seq(job.api@, job.user@, job.repo@),
                tag_name: job_tag(job),
                title: job.name@ + " v"@ + job.version@,
                body: "Plugin: "@ + job.name@ + "\nVersion: "@ + job.version@ + "\nAuthor: "@ + job.author@,
            },
        },
    )
}

/// The next step of an upload. The release of the tag is asked for first; a
/// `200` reply reuses it, anything else creates it, which needs a `201`.
/// Then the release's assets are listed, those with the archive's name are
/// deleted one by one whatever each deletion gives, and the archive is
/// uploaded, which needs a `201`; the release's page is then shown.
pub open spec fn upload_next(job: UploadJob, s: UploadStateModel, e: UploadEventModel) -> (
    UploadStateModel,
    UploadActionModel,
) {
    let tag = job_tag(job);
    match s {
        UploadStateModel::Start => (
            UploadStateModel::AwaitCheck,
            UploadActionModel {
                notes: seq![],
                request: UploadRequestModel::GetRelease(
                    releases_api_seq(job.api@, job.user@, job.repo@) + "/tags/"@ + tag,
                ),
            },
        ),
        UploadStateModel::AwaitCheck => match e {
            UploadEventModel::Begin => stop(seq![], UploadErrorModel::OutOfOrder),
            UploadEventModel::Reply { status, body, .. } => if status == 200 {
                let notes = seq!["   Release already exists, updating..."@];
                match body {
                    Some(b) => after_release(job, release_fields_of(b), notes, UploadErrorModel::NoReleaseIdFound),
                    None => stop(notes, UploadErrorModel::UnreadableReply),
                }
            } else {
                create_release(job)
            },
            UploadEventModel::RequestFailed(_) => create_release(job),
        },
        UploadStateModel::AwaitCreate => match e {
            UploadEventModel::Begin => stop(seq![], UploadErrorModel::OutOfOrder),
            UploadEventModel::RequestFailed(m) => stop(seq![], UploadErrorModel::RequestFailed(m)),
            UploadEventModel::Reply { status, status_text, body, .. } => if status != 201 {
                stop(
                    seq![],
                    UploadErrorModel::CreateRefused {
                        status,
                        status_text,
                        body: match body {
                            Some(b) => b,
                            None => seq![],
                        },
                    },
                )
            } else {
                match body {
                    Some(b) => after_release(job, release_fields_of(b), seq![], UploadErrorModel::NoReleaseIdReturned),
                    None => stop(seq![], UploadErrorModel::UnreadableReply),
                }
            },
        },
        UploadStateModel::AwaitAssets { release_id, release_url } => match e {
            UploadEventModel::Reply { status, assets, .. } => if status == 200 && assets is Some {
                delete_or_upload(
                    job,
                    release_id,
                    release_url,
                    matching_asset_ids(assets->0, job_asset(job)),
                    seq![],
                )
            } else {
                start_upload(job, release_id, release_url, seq![])
            },
            _ => start_upload(job, release_id, release_url, seq![]),
        },
        UploadStateModel::Deleting { release_id, release_url, pending } => delete_or_upload(
            job,
            release_id,
            release_url,
            pending,
            seq!["   Deleted old asset: "@ + job_asset(job)],
        ),
        UploadStateModel::AwaitUpload { release_id, release_url } => match e {
            UploadEventModel::Begin => stop(seq![], UploadErrorModel::OutOfOrder),
            UploadEventModel::RequestFailed(m) => stop(seq![], UploadErrorModel::RequestFailed(m)),
            UploadEventModel::Reply { status, status_text, body, .. } => if status != 201 {
                stop(
                    seq![],
                    UploadErrorModel::UploadRefused {
                        status,
                        status_text,
                        body: match body {
                            Some(b) => b,
                            None => seq![],
                        },
                    },
                )
            } else {
                (
                    UploadStateModel::Finished,
                    UploadActionModel {
                        notes: seq![
                            "   Published: "@ + release_display_url_seq(
                                release_url,
                                job.base@,
                                job.user@,
                                job.repo@,
                                tag,
                            ),
                        ],
                        request: UploadRequestModel::Done,
                    },
                )
            },
        },
        UploadStateModel::Finished => stop(seq![], UploadErrorModel::OutOfOrder),
    }
}


fn stop_with(notes: Vec<String>, e: UploadError) -> (r: (UploadState, UploadAction))
    ensures
        (r.0@, r.1@) == stop(notes.deep_view(), e@),
{
    (UploadState::Finished, UploadAction { notes, request: UploadRequest::Fail(e) })
}

fn no_notes() -> (r: Vec<String>)
    ensures
        r.deep_view() == Seq::<Seq<char>>::empty(),
{
    let v: Vec<String> = Vec::new();
    assert(v.deep_view() =~= Seq::<Seq<char>>::empty());
    v
}

fn note(text: String) -> (r: Vec<String>)
    ensures
        r.deep_view() == seq![text@],
{
    let mut v: Vec<String> = Vec::new();
    v.push(text);
    assert(v.deep_view() =~= seq![text@]);
    v
}

fn push_note(notes: &mut Vec<String>, text: String)
    ensures
        final(notes).deep_view() == old(notes).deep_view().push(text@),
{
    let ghost before = notes.deep_view();
    let ghost t = text@;
    notes.push(text);
    assert(notes.deep_view() =~= before.push(t));
}

fn after_release_step(job: &UploadJob, body: &str, notes: Vec<String>, missing: UploadError) -> (r: (
    UploadState,
    UploadAction,
))
    ensures
        (r.0@, r.1@) == after_release(*job, release_fields_of(body@), notes.deep_view(), missing@),
{
    match parse_release_fields(body) {
        None => stop_with(notes, UploadError::InvalidJson),
        Some((None, _)) => stop_with(notes, missing),
        Some((Some(id), url)) => {
            let release_url = match url {
                Some(u) => u,
                None => String::new(),
            };
            let list = release_assets_url(job.api.as_str(), job.user.as_str(), job.repo.as_str(), id);
            (
                UploadState::AwaitAssets { release_id: id, release_url },
                UploadAction { notes, request: UploadRequest::ListAssets(list) },
            )
        },
    }
}

fn start_upload_step(job: &UploadJob, id: i64, url: String, notes: Vec<String>) -> (r: (
    UploadState,
    UploadAction,
))
    ensures
        (r.0@, r.1@) == start_upload(*job, id, url@, notes.deep_view()),
{
    let mut notes = notes;
    let asset = crate::publish::asset_file_name(job.name.as_str(), job.version.as_str());
    let mut line = String::from_str("   Uploading ");
    line.append(asset.as_str());
    line.append("...");
    push_note(&mut notes, line);
    let target = release_assets_url(job.api.as_str(), job.user.as_str(), job.repo.as_str(), id);
    (
        UploadState::AwaitUpload { release_id: id, release_url: url },
        UploadAction { notes, request: UploadRequest::UploadArchive { url: target, asset_name: asset } },
    )
}

fn delete_or_upload_step(job: &UploadJob, id: i64, url: String, pending: Vec<i64>, notes: Vec<String>) -> (r: (
    UploadState,
    UploadAction,
))
    ensures
        (r.0@, r.1@) == delete_or_upload(*job, id, url@, pending@, notes.deep_view()),
{
    if pending.len() > 0 {
        let mut rest = pending;
        let first = rest.remove(0);
        assert(rest@ =~= pending@.drop_first());
        let target = release_asset_url(job.api.as_str(), job.user.as_str(), job.repo.as_str(), id, first);
        (
            UploadState::Deleting { release_id: id, release_url: url, pending: rest },
            UploadAction { notes, request: UploadRequest::DeleteAsset(target) },
        )
    } else {
        start_upload_step(job, id, url, notes)
    }
}

/// One step of an upload: from where it stands and what the last request
/// gave, where it goes and what to print and send next.
pub fn upload_step(job: &UploadJob, state: UploadState, event: UploadEvent) -> (r: (UploadState, UploadAction))
    ensures
        (r.0@, r.1@) == upload_next(*job, state@, event@),
{
    match state {
        UploadState::Start => {
            let tag = release_tag(job.name.as_str(), job.version.as_str());
            let url = release_by_tag_url(job.api.as_str(), job.user.as_str(), job.repo.as_str(), tag.as_str());
            let notes: Vec<String> = Vec::new();
            assert(notes.deep_view() =~= Seq::<Seq<char>>::empty());
            (UploadState::AwaitCheck, UploadAction { notes, request: UploadRequest::GetRelease(url) })
        },
        UploadState::AwaitCheck => match event {
            UploadEvent::Begin => stop_with(no_notes(), UploadError::OutOfOrder),
            UploadEvent::Reply { status, body, .. } => {
                if status == 200 {
                    let notes = note(String::from_str("   Release already exists, updating..."));
                    match body {
                        Some(b) => after_release_step(job, b.as_str(), notes, UploadError::NoReleaseIdFound),
                        None => stop_with(notes, UploadError::UnreadableReply),
                    }
                } else {
                    create_release_step(job)
                }
            },
            UploadEvent::RequestFailed(_) => create_release_step(job),
        },
        UploadState::AwaitCreate => match event {
            UploadEvent::Begin => stop_with(no_notes(), UploadError::OutOfOrder),
            UploadEvent::RequestFailed(m) => stop_with(no_notes(), UploadError::RequestFailed(m)),
            UploadEvent::Reply { status, status_text, body, .. } => {
                if status != 201 {
                    let body = match body {
                        Some(b) => b,
                        None => String::new(),
                    };
                    stop_with(no_notes(), UploadError::CreateRefused { status, status_text, body })
                } else {
                    match body {
                        Some(b) => after_release_step(job, b.as_str(), no_notes(), UploadError::NoReleaseIdReturned),
                        None => stop_with(no_notes(), UploadError::UnreadableReply),
                    }
                }
            },
        },
        UploadState::AwaitAssets { release_id, release_url } => match event {
            UploadEvent::Reply { status, assets, .. } => {
                if status == 200 && assets.is_some() {
                    let list = match assets {
                        Some(l) => l,
                        None => Vec::new(),
                    };
                    let asset = crate::publish::asset_file_name(job.name.as_str(), job.version.as_str());
                    let ids = assets_to_replace(&list, asset.as_str());
                    delete_or_upload_step(job, release_id, release_url, ids, no_notes())
                } else {
                    start_upload_step(job, release_id, release_url, no_notes())
                }
            },
            _ => start_upload_step(job, release_id, release_url, no_notes()),
        },
        UploadState::Deleting { release_id, release_url, pending } => {
            let asset = crate::publish::asset_file_name(job.name.as_str(), job.version.as_str());
            let mut line = String::from_str("   Deleted old asset: ");
            line.append(asset.as_str());
            delete_or_upload_step(job, release_id, release_url, pending, note(line))
        },
        UploadState::AwaitUpload { release_id, release_url } => match event {
            UploadEvent::Begin => stop_with(no_notes(), UploadError::OutOfOrder),
            UploadEvent::RequestFailed(m) => stop_with(no_notes(), UploadError::RequestFailed(m)),
            UploadEvent::Reply { status, status_text, body, .. } => {
                if status != 201 {
                    let body = match body {
                        Some(b) => b,
                        None => String::new(),
                    };
                    stop_with(no_notes(), UploadError::UploadRefused { status, status_text, body })
                } else {
                    let tag = release_tag(job.name.as_str(), job.version.as_str());
                    let shown = release_display_url(
                        release_url.as_str(),
                        job.base.as_str(),
                        job.user.as_str(),
                        job.repo.as_str(),
                        tag.as_str(),
                    );
                    let mut line = String::from_str("   Published: ");
                    line.append(shown.as_str());
                    (UploadState::Finished, UploadAction { notes: note(line), request: UploadRequest::Done })
                }
            },
        },
        UploadState::Finished => stop_with(no_notes(), UploadError::OutOfOrder),
    }
}

fn create_release_step(job: &UploadJob) -> (r: (UploadState, UploadAction))
    ensures
        (r.0@, r.1@) == create_release(*job),
{
    let url = releases_api_url(job.api.as_str(), job.user.as_str(), job.repo.as_str());
    let tag_name = release_tag(job.name.as_str(), job.version.as_str());
    let title = release_title(job.name.as_str(), job.version.as_str());
    let body = release_body(job.name.as_str(), job.version.as_str(), job.author.as_str());
    (
        UploadState::AwaitCreate,
        UploadAction {
            notes: note(String::from_str("   Creating release...")),
            request: UploadRequest::CreateRelease { url, tag_name, title, body },
        },
    )
}

} // verus!
