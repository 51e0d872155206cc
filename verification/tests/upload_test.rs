use cargo_tsn::publish::AssetRecord;
use cargo_tsn::upload::{upload_step, UploadAction, UploadError, UploadEvent, UploadJob, UploadRequest, UploadState};

fn job() -> UploadJob {
    UploadJob {
        api: "https://codeberg.org/api/v1".to_string(),
        base: "https://codeberg.org".to_string(),
        user: "u".to_string(),
        repo: "r".to_string(),
        name: "os".to_string(),
        version: "1.0.0".to_string(),
        author: "me".to_string(),
    }
}

fn reply(status: u16, body: &str) -> UploadEvent {
    UploadEvent::Reply { status, status_text: "S".to_string(), body: Some(body.to_string()), assets: None }
}

fn asset(id: i64, name: &str) -> AssetRecord {
    AssetRecord { id, name: name.to_string(), url: String::new() }
}

fn request(a: &UploadAction) -> String {
    match &a.request {
        UploadRequest::GetRelease(u) => format!("get {}", u),
        UploadRequest::CreateRelease { url, tag_name, title, body } => format!("create {} {} {} {}", url, tag_name, title, body),
        UploadRequest::ListAssets(u) => format!("list {}", u),
        UploadRequest::DeleteAsset(u) => format!("delete {}", u),
        UploadRequest::UploadArchive { url, asset_name } => format!("upload {} {}", url, asset_name),
        UploadRequest::Done => "done".to_string(),
        UploadRequest::Fail(e) => match e {
            UploadError::UnreadableReply => "fail unreadable".to_string(),
            UploadError::InvalidJson => "fail json".to_string(),
            UploadError::NoReleaseIdFound => "fail no id found".to_string(),
            UploadError::NoReleaseIdReturned => "fail no id returned".to_string(),
            UploadError::RequestFailed(m) => format!("fail request {}", m),
            UploadError::CreateRefused { status, status_text, body } => format!("fail create {} {} {}", status, status_text, body),
            UploadError::UploadRefused { status, status_text, body } => format!("fail upload {} {} {}", status, status_text, body),
            UploadError::OutOfOrder => "fail order".to_string(),
        },
    }
}

const RELEASES: &str = "https://codeberg.org/api/v1/repos/u/r/releases";

#[test]
fn an_existing_release_is_reused_and_old_archives_replaced() {
    let j = job();
    let (s, a) = upload_step(&j, UploadState::Start, UploadEvent::Begin);
    assert_eq!(request(&a), format!("get {}/tags/os-1.0.0", RELEASES));
    assert!(a.notes.is_empty());
    let (s, a) = upload_step(&j, s, reply(200, "{\"id\": 5, \"url\": \"https://codeberg.org/api/v1/repos/u/r/releases/5\"}"));
    assert_eq!(a.notes, vec!["   Release already exists, updating..."]);
    assert_eq!(request(&a), format!("list {}/5/assets", RELEASES));
    let listing = UploadEvent::Reply {
        status: 200,
        status_text: "OK".to_string(),
        body: Some("[]".to_string()),
        assets: Some(vec![asset(1, "os-1.0.0.zip"), asset(2, "notes.txt"), asset(3, "os-1.0.0.zip")]),
    };
    let (s, a) = upload_step(&j, s, listing);
    assert_eq!(request(&a), format!("delete {}/5/assets/1", RELEASES));
    let (s, a) = upload_step(&j, s, UploadEvent::RequestFailed("gone".to_string()));
    assert_eq!(a.notes, vec!["   Deleted old asset: os-1.0.0.zip"]);
    assert_eq!(request(&a), format!("delete {}/5/assets/3", RELEASES));
    let (s, a) = upload_step(&j, s, reply(204, ""));
    assert_eq!(a.notes, vec!["   Deleted old asset: os-1.0.0.zip", "   Uploading os-1.0.0.zip..."]);
    assert_eq!(request(&a), format!("upload {}/5/assets os-1.0.0.zip", RELEASES));
    let (s, a) = upload_step(&j, s, reply(201, "{}"));
    assert_eq!(a.notes, vec!["   Published: https://codeberg.org/u/r/releases/tag/5"]);
    assert_eq!(request(&a), "done");
    let (_, a) = upload_step(&j, s, UploadEvent::Begin);
    assert_eq!(request(&a), "fail order");
}

#[test]
fn a_missing_release_is_created() {
    let j = job();
    let (s, _) = upload_step(&j, UploadState::Start, UploadEvent::Begin);
    let (s, a) = upload_step(&j, s, UploadEvent::RequestFailed("404".to_string()));
    assert_eq!(a.notes, vec!["   Creating release..."]);
    assert_eq!(request(&a), format!("create {} os-1.0.0 os v1.0.0 Plugin: os\nVersion: 1.0.0\nAuthor: me", RELEASES));
    let (s, a) = upload_step(&j, s, reply(201, "{\"id\": 7}"));
    assert!(a.notes.is_empty());
    assert_eq!(request(&a), format!("list {}/7/assets", RELEASES));
    let (s, a) = upload_step(&j, s, UploadEvent::RequestFailed("timeout".to_string()));
    assert_eq!(request(&a), format!("upload {}/7/assets os-1.0.0.zip", RELEASES));
    let (_, a) = upload_step(&j, s, reply(500, "boom"));
    assert_eq!(request(&a), "fail upload 500 S boom");
    let (s, _) = upload_step(&j, UploadState::AwaitCheck, reply(404, ""));
    let (_, a) = upload_step(&j, s, reply(201, "{\"id\": 8}"));
    assert_eq!(request(&a), format!("list {}/8/assets", RELEASES));
    let (_, a) = upload_step(&j, UploadState::AwaitUpload { release_id: 8, release_url: String::new() }, reply(201, ""));
    assert_eq!(a.notes, vec!["   Published: https://codeberg.org/u/r/releases/tag/os-1.0.0"]);
}

#[test]
fn upload_errors() {
    let j = job();
    let (_, a) = upload_step(&j, UploadState::AwaitCreate, reply(409, "exists"));
    assert_eq!(request(&a), "fail create 409 S exists");
    let (_, a) = upload_step(&j, UploadState::AwaitCreate, reply(201, "not json"));
    assert_eq!(request(&a), "fail json");
    let (_, a) = upload_step(&j, UploadState::AwaitCreate, reply(201, "{\"url\": \"x\"}"));
    assert_eq!(request(&a), "fail no id returned");
    let (_, a) = upload_step(&j, UploadState::AwaitCreate, UploadEvent::RequestFailed("refused".to_string()));
    assert_eq!(request(&a), "fail request refused");
    let (_, a) = upload_step(&j, UploadState::AwaitCheck, reply(200, "{\"id\": \"5\"}"));
    assert_eq!(request(&a), "fail no id found");
    let no_body = UploadEvent::Reply { status: 200, status_text: "OK".to_string(), body: None, assets: None };
    let (_, a) = upload_step(&j, UploadState::AwaitCheck, no_body);
    assert_eq!(a.notes, vec!["   Release already exists, updating..."]);
    assert_eq!(request(&a), "fail unreadable");
}
