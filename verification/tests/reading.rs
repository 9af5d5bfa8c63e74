//! What is shown of a space, and where requests go.

use happyview_spaces::access::{Claims, XrpcClaims};
use happyview_spaces::entry::EntryStep;
use happyview_spaces::error::AppError;
use happyview_spaces::oplog::OpCursor;
use happyview_spaces::reads::{
    blob_author, blob_content_type, blob_status, blob_url, commit_block, get_latest_commit,
    get_record, get_repo, list_records, list_repos, list_spaces, shown_records, BlobStep, Fetched,
    ListRecordsQuery, RepoOpsStep, RepoState, VisibilityStep,
};
use happyview_spaces::routes::{space_routes, Endpoint, Method};
use happyview_spaces::types::{AppAccess, MintPolicy, Space, SpaceAccess, SpaceConfig, SpaceRecord};

fn space(public: bool) -> Space {
    let mut config = SpaceConfig::standard();
    config.membership_public = public;
    Space {
        id: "space-id".to_string(),
        did: "did:plc:owner".to_string(),
        authority_did: "did:plc:owner".to_string(),
        creator_did: "did:plc:owner".to_string(),
        type_nsid: "com.example.forum".to_string(),
        skey: "main".to_string(),
        display_name: None,
        description: None,
        mint_policy: MintPolicy::MemberList,
        app_access: AppAccess::Standard,
        managing_app_did: None,
        config,
        revision: Some("3space".to_string()),
        created_at: "then".to_string(),
        updated_at: "then".to_string(),
    }
}

fn account(did: &str) -> XrpcClaims {
    XrpcClaims {
        identity: Some(Claims { did: did.to_string(), client_key: None }),
        space_credential: None,
        service_auth: None,
    }
}

fn nobody() -> XrpcClaims {
    XrpcClaims { identity: None, space_credential: None, service_auth: None }
}

fn state(n: u8) -> RepoState {
    RepoState {
        hash: Some(vec![n; 32]),
        ikm: Some(vec![n; 32]),
        sig: Some(vec![1, 2]),
        mac: Some(vec![n; 32]),
        rev: Some("3rev".to_string()),
    }
}

#[test]
fn a_private_space_does_not_exist_for_strangers() {
    assert!(matches!(VisibilityStep::get_space(&space(true), &nobody()), VisibilityStep::Visible));
    assert!(matches!(VisibilityStep::get_space(&space(false), &nobody()), VisibilityStep::Refused { error: AppError::Auth(_) }));
    assert!(matches!(VisibilityStep::get_space(&space(false), &account("did:plc:owner")), VisibilityStep::Visible));
    let step = VisibilityStep::get_space(&space(false), &account("did:plc:m"));
    assert!(matches!(&step, VisibilityStep::LookUpMember { did } if did == "did:plc:m"));
    assert!(matches!(step.member(Some(SpaceAccess::ReadSelf)), VisibilityStep::Visible));
    let step = VisibilityStep::get_space(&space(false), &account("did:plc:m")).member(None);
    assert!(matches!(step, VisibilityStep::Refused { error: AppError::NotFound(m) } if m == "Space not found"));
}

#[test]
fn participants_are_shown_to_those_who_may_know() {
    assert!(list_repos(&space(true), &nobody()).is_none());
    assert!(list_repos(&space(false), &account("did:plc:owner")).is_none());
    let way = list_repos(&space(false), &nobody()).expect("not for everyone");
    assert!(matches!(way, EntryStep::Refused { error: AppError::Auth(_) }));
    let way = list_repos(&space(false), &account("did:plc:m")).expect("not for everyone");
    let way = way.space(Some(space(false)));
    assert!(matches!(way.member(None), EntryStep::Refused { error: AppError::Forbidden(_) }));
    let way = list_repos(&space(false), &account("did:plc:m")).expect("not for everyone");
    let way = way.space(Some(space(false)));
    assert!(matches!(way.member(Some(SpaceAccess::Read)), EntryStep::Open { .. }));
}

#[test]
fn spaces_are_listed_for_the_caller_unless_asked_otherwise() {
    assert!(matches!(list_spaces(&nobody(), None, None), Err(AppError::Auth(_))));
    let me = account("did:plc:m");
    assert_eq!(list_spaces(&me, None, None).unwrap(), ("did:plc:m".to_string(), 50));
    assert_eq!(list_spaces(&me, Some("did:plc:o".to_string()), Some(7)).unwrap(), ("did:plc:o".to_string(), 7));
    assert_eq!(list_spaces(&me, None, Some(1000)).unwrap().1, 100);
    assert_eq!(list_spaces(&me, None, Some(-1)).unwrap().1, -1);
}

fn listing(repo: Option<&str>) -> ListRecordsQuery {
    ListRecordsQuery { repo: repo.map(|s| s.to_string()), limit: None, reverse: None, include_values: None }
}

#[test]
fn whose_records_are_listed() {
    let repo = |access, credential, asked| list_records("did:plc:m", access, credential, listing(asked)).repo;
    assert_eq!(repo(SpaceAccess::ReadSelf, false, Some("did:plc:o")).as_deref(), Some("did:plc:m"));
    assert_eq!(repo(SpaceAccess::ReadSelf, false, None).as_deref(), Some("did:plc:m"));
    assert_eq!(repo(SpaceAccess::Read, false, Some("did:plc:o")).as_deref(), Some("did:plc:o"));
    assert_eq!(repo(SpaceAccess::Read, false, None).as_deref(), Some("did:plc:m"));
    assert_eq!(repo(SpaceAccess::Read, true, None), None);
    assert_eq!(repo(SpaceAccess::ReadSelf, true, Some("did:plc:o")).as_deref(), Some("did:plc:o"));
    let q = ListRecordsQuery { repo: None, limit: Some(500), reverse: Some(true), include_values: Some(true) };
    let l = list_records("did:plc:m", SpaceAccess::Write, false, q);
    assert_eq!((l.limit, l.reverse, l.include_values), (100, true, true));
    let l = list_records("did:plc:m", SpaceAccess::Write, false, listing(None));
    assert_eq!((l.limit, l.reverse, l.include_values), (50, false, false));
    assert!(matches!(get_record(None), Err(AppError::NotFound(m)) if m == "Record not found"));
}

#[test]
fn a_commit_is_shown_in_base_64() {
    let block = commit_block(&state(0xff)).unwrap().expect("there is a commit");
    assert_eq!(block.ver, 1);
    assert_eq!(block.hash, "__________________________________________8");
    assert_eq!(block.sig, "AQI");
    assert_eq!(block.rev.as_deref(), Some("3rev"));
    let mut none = state(0);
    none.hash = None;
    none.mac = None;
    assert!(commit_block(&none).unwrap().is_none());
    for (fault, message) in [
        (0, "corrupt repo state: hash present but ikm missing"),
        (1, "corrupt repo state: hash present but sig missing"),
        (2, "corrupt repo state: hash present but mac missing"),
    ] {
        let mut s = state(0);
        match fault {
            0 => s.ikm = None,
            1 => s.sig = None,
            _ => s.mac = None,
        }
        assert!(matches!(commit_block(&s), Err(AppError::Internal(m)) if m == message));
        assert!(get_latest_commit(&s, &None, &space(true)).is_err());
    }
}

#[test]
fn the_head_of_the_log_comes_first() {
    let head = Some(OpCursor { rev: "3head".to_string(), idx: 4 });
    let latest = get_latest_commit(&state(1), &head, &space(true)).unwrap();
    assert_eq!((latest.rev.as_deref(), latest.cursor.as_deref()), (Some("3head"), Some("3head:4")));
    assert!(latest.oplog && latest.commit.is_some());
    let latest = get_latest_commit(&state(1), &None, &space(true)).unwrap();
    assert_eq!((latest.rev.as_deref(), latest.cursor), (Some("3rev"), None));
}

#[test]
fn a_repo_needs_a_whole_commit() {
    let commit = get_repo(state(9)).expect("whole");
    assert_eq!((commit.ver, commit.hash, commit.rev.as_str()), (1, [9u8; 32], "3rev"));
    assert_eq!(commit.sig, vec![1, 2]);
    let fault = |change: fn(&mut RepoState)| {
        let mut s = state(9);
        change(&mut s);
        match get_repo(s).unwrap_err() {
            AppError::NotFound(m) => format!("404 {m}"),
            AppError::Internal(m) => format!("500 {m}"),
            other => panic!("{other:?}"),
        }
    };
    assert_eq!(fault(|s| s.hash = None), "404 no commit exists for this repo");
    assert_eq!(fault(|s| s.hash = Some(vec![0; 31])), "500 corrupt repo state: hash is not 32 bytes");
    assert_eq!(fault(|s| s.ikm = None), "500 corrupt repo state: missing ikm");
    assert_eq!(fault(|s| s.ikm = Some(vec![0; 33])), "500 corrupt repo state: ikm is not 32 bytes");
    assert_eq!(fault(|s| s.mac = None), "500 corrupt repo state: missing mac");
    assert_eq!(fault(|s| s.mac = Some(vec![])), "500 corrupt repo state: mac is not 32 bytes");
    assert_eq!(fault(|s| s.sig = None), "500 corrupt repo state: missing sig");
    assert_eq!(fault(|s| s.rev = None), "500 corrupt repo state: missing rev");
}

#[test]
fn a_page_of_the_log_is_bounded() {
    let limit = |asked: Option<i64>| {
        match RepoOpsStep::list_repo_ops("s", "did", None, asked, Some(true)) {
            RepoOpsStep::ReadOps { query, .. } => {
                assert!(!query.sql.contains("JOIN"));
                format!("{:?}", query.params.last().unwrap())
            }
            other => panic!("{other:?}"),
        }
    };
    assert_eq!(limit(None), "Int(100)");
    assert_eq!(limit(Some(5)), "Int(5)");
    assert_eq!(limit(Some(5000)), "Int(1000)");
    let step = RepoOpsStep::list_repo_ops("s", "did", Some("3k:1".to_string()), None, None);
    assert!(matches!(&step, RepoOpsStep::ReadFloor { query, .. } if query.sql.contains("JOIN")));
    assert!(matches!(step.floor(None), RepoOpsStep::Reply { reset: true, cursor: None, .. }));
}

#[test]
fn blobs_come_from_the_server_of_their_author() {
    assert!(matches!(blob_author(None), Err(AppError::NotFound(m)) if m == "Blob not found in this space"));
    assert_eq!(
        blob_url("https://pds.example", "did:web:a.b~c_d-e", "bafy/ä 1"),
        "https://pds.example/xrpc/com.atproto.sync.getBlob?did=did%3Aweb%3Aa.b~c_d-e&cid=bafy%2F%C3%A4%201"
    );
    assert!(blob_status(200, "200 OK", "c").is_ok() && blob_status(299, "299", "c").is_ok());
    for status in [199, 300, 404] {
        let e = blob_status(status, "404 Not Found", "bafy").unwrap_err();
        assert_eq!(e.status_code(), 502);
        assert!(matches!(e, AppError::BadGateway(m) if m == "PDS returned 404 Not Found for blob cid=bafy"));
    }
    assert_eq!(blob_content_type(Some("image/png")), "image/png");
    assert_eq!(blob_content_type(None), "application/octet-stream");
}

#[test]
fn every_error_has_its_status() {
    for (e, code) in [
        (AppError::auth("m"), 401),
        (AppError::bad_request("m"), 400),
        (AppError::forbidden("m"), 403),
        (AppError::not_found("m"), 404),
        (AppError::conflict("m"), 409),
        (AppError::internal("m"), 500),
    ] {
        assert_eq!(e.status_code(), code);
    }
}

#[test]
fn routes_are_distinct_and_aliases_agree() {
    let routes = space_routes();
    assert_eq!(routes.len(), 34);
    let find = |path: &str| routes.iter().find(|r| r.path == path).unwrap_or_else(|| panic!("{path}"));
    for (i, a) in routes.iter().enumerate() {
        for b in &routes[..i] {
            assert_ne!(a.path, b.path);
        }
    }
    for name in ["getSpace", "listSpaces", "getRecord", "listRecords", "getSpaceCredential", "createRecord", "putRecord", "deleteRecord", "applyWrites", "getBlob"] {
        let new = find(&format!("/xrpc/com.atproto.space.{name}"));
        let old = find(&format!("/xrpc/dev.happyview.space.{name}"));
        assert_eq!((new.endpoint, new.method), (old.endpoint, old.method));
    }
    assert_eq!(find("/xrpc/dev.happyview.space.getMemberGrant").endpoint, Endpoint::GetDelegationToken);
    assert_eq!(find("/xrpc/com.atproto.space.getRepoState").endpoint, Endpoint::GetLatestCommit);
    assert_eq!(find("/xrpc/dev.happyview.space.listInvites").method, Method::Get);
    assert_eq!(find("/xrpc/com.atproto.space.applyWrites").method, Method::Post);
}

#[test]
fn a_blob_takes_its_way_step_by_step() {
    let text = |s: &str| s.to_string();
    let find = || BlobStep::get_space_blob(&space(false), text("bafy"));
    assert!(matches!(find(), BlobStep::FindAuthor { space_id, cid } if space_id == "space-id" && cid == "bafy"));
    assert!(matches!(find().author(None), BlobStep::Refused { error: AppError::NotFound(m) } if m == "Blob not found in this space"));
    let check = || find().author(Some(text("did:plc:a")));
    assert!(matches!(check(), BlobStep::CheckAccess { author, .. } if author == "did:plc:a"));
    let refused = check().allowed(Err(AppError::forbidden("no")));
    assert!(matches!(refused, BlobStep::Refused { error: AppError::Forbidden(m) } if m == "no"));
    let server = || check().allowed(Ok(()));
    assert!(matches!(server().server(Err(AppError::not_found("nowhere"))), BlobStep::Refused { error: AppError::NotFound(_) }));
    let fetch = || server().server(Ok(text("https://pds")));
    assert!(matches!(fetch(), BlobStep::Fetch { url, .. } if url == "https://pds/xrpc/com.atproto.sync.getBlob?did=did%3Aplc%3Aa&cid=bafy"));
    let message = |step: BlobStep| match step {
        BlobStep::Refused { error: AppError::BadGateway(m) } => m,
        other => panic!("{other:?}"),
    };
    assert_eq!(message(fetch().fetched(Err(text("down")))), "blob fetch failed: down");
    let came = |status: u16, shown: &str, kind: Option<&str>| {
        fetch().fetched(Ok(Fetched { status, status_text: text(shown), content_type: kind.map(text) }))
    };
    assert_eq!(message(came(404, "404 Not Found", None)), "PDS returned 404 Not Found for blob cid=bafy");
    assert!(matches!(came(200, "200 OK", None), BlobStep::ReadBody { content_type } if content_type == "application/octet-stream"));
    let read = || came(200, "200 OK", Some("image/png"));
    assert_eq!(message(read().body(Err(text("cut off")))), "failed to read blob body: cut off");
    assert!(matches!(read().body(Ok(())), BlobStep::Deliver { content_type } if content_type == "image/png"));
}

#[test]
fn records_are_listed_with_values_only_when_asked() {
    let records = || {
        ["a", "b"].map(|k| SpaceRecord {
            uri: String::new(),
            space_id: String::new(),
            author_did: String::new(),
            collection: "com.example.item".to_string(),
            rkey: k.to_string(),
            record: serde_json::Value::from(k),
            cid: format!("cid-{k}"),
            indexed_at: String::new(),
        }).into_iter().collect::<Vec<_>>()
    };
    let plain = shown_records(records(), false);
    assert_eq!(plain.len(), 2);
    assert_eq!((plain[1].collection.as_str(), plain[1].rkey.as_str(), plain[1].cid.as_str()), ("com.example.item", "b", "cid-b"));
    assert!(plain.iter().all(|r| r.value.is_none()));
    let full = shown_records(records(), true);
    assert_eq!((full[0].rkey.as_str(), full[0].value.as_ref().unwrap().as_str()), ("a", Some("a")));
}
