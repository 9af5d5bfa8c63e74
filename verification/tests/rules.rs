//! The rules one by one.

use happyview_spaces::access::{
    require_auth, require_notify_caller, AdminStep, AuthStep, Claims, MembershipStep, ServiceAuth,
    XrpcClaims,
};
use happyview_spaces::credentials::{
    delegation_token_at, get_delegation_token, issuing_second, require_signing_key, resolve_client_id_url,
    CredentialStep,
};
use happyview_spaces::error::AppError;
use happyview_spaces::ids::{new_id, token_hash};
use happyview_spaces::invites::{
    invite_with_secret, list_invites, revoke_invite, AcceptStep, InviteSummary,
};
use happyview_spaces::service::{check_collection_allowed, content_cid, CommitStep, PendingOp};
use happyview_spaces::spaces::{update_space, RemoveMemberStep, SpaceChanges};
use happyview_spaces::types::{
    AppAccess, MintPolicy, OplogAction, Space, SpaceAccess, SpaceConfig,
};
use happyview_spaces::writes::{
    check_before_reading, check_stored, space_record_uri, Stored, WriteOp, WriteStep,
};
use serde_json::Value;

fn record(key: &str, text: &str) -> Value {
    let mut m = serde_json::Map::new();
    m.insert(key.to_string(), Value::from(text));
    Value::Object(m)
}

fn config_with_allowed_collections(allowed: &[&str]) -> SpaceConfig {
    let mut config = SpaceConfig::standard();
    let list: Vec<Value> = allowed.iter().map(|s| Value::from(*s)).collect();
    config.extra.insert("allowedCollections".to_string(), Value::Array(list));
    config
}

fn space_with_config(config: SpaceConfig) -> Space {
    Space {
        id: "space-id".to_string(),
        did: "did:plc:owner".to_string(),
        authority_did: "did:plc:owner".to_string(),
        creator_did: "did:plc:owner".to_string(),
        type_nsid: "com.example.forum".to_string(),
        skey: "main".to_string(),
        display_name: None,
        description: None,
        mint_policy: MintPolicy::MemberList,
        app_access: AppAccess::Standard,
        managing_app_did: None,
        config,
        revision: None,
        created_at: "then".to_string(),
        updated_at: "then".to_string(),
    }
}

fn space() -> Space {
    space_with_config(SpaceConfig::standard())
}

fn account(did: &str) -> XrpcClaims {
    XrpcClaims {
        identity: Some(Claims { did: did.to_string(), client_key: Some("key".to_string()) }),
        space_credential: None,
        service_auth: None,
    }
}

#[test]
fn check_collection_allowed_permits_listed_collection() {
    let space = space_with_config(config_with_allowed_collections(&["com.example.allowed"]));
    assert!(check_collection_allowed(&space, "com.example.allowed").is_ok());
}

#[test]
fn check_collection_allowed_rejects_unlisted_collection() {
    let space = space_with_config(config_with_allowed_collections(&["com.example.allowed"]));
    let err = check_collection_allowed(&space, "com.example.denied").unwrap_err();
    match err {
        AppError::BadRequest(msg) => {
            assert!(msg.contains("not allowed"), "expected 'not allowed' in message, got: {msg}");
        }
        other => panic!("expected BadRequest, got: {other:?}"),
    }
}

#[test]
fn check_collection_allowed_permits_any_collection_when_config_absent() {
    let space = space();
    assert!(check_collection_allowed(&space, "com.example.anything").is_ok());
}

#[test]
fn check_collection_allowed_permits_any_collection_when_list_empty() {
    let space = space_with_config(config_with_allowed_collections(&[]));
    assert!(check_collection_allowed(&space, "com.example.anything").is_ok());
}

#[test]
fn what_is_no_list_or_no_text_allows_as_it_should() {
    let mut config = SpaceConfig::standard();
    config.extra.insert("allowedCollections".to_string(), Value::from("com.example.a"));
    assert!(check_collection_allowed(&space_with_config(config), "com.example.b").is_ok());
    let mut config = SpaceConfig::standard();
    config.extra.insert("allowedCollections".to_string(), Value::Array(vec![Value::from(7)]));
    assert!(check_collection_allowed(&space_with_config(config), "7").is_err());
}

#[test]
fn content_cid_deterministic() {
    let record = record("text", "hello");
    let cid1 = content_cid(&record);
    let cid2 = content_cid(&record);
    assert_eq!(cid1, cid2);
    assert!(cid1.starts_with("bafyrei"));
}

#[test]
fn content_cid_changes_for_different_records() {
    let a = content_cid(&record("text", "hello"));
    let b = content_cid(&record("text", "world"));
    assert_ne!(a, b);
}

#[test]
fn content_cid_known_value() {
    // The front of the digest of the four letters `null`.
    assert_eq!(content_cid(&Value::Null), "bafyrei74234e98afe7498fb5daf1f36ac2d78acc339464");
}

#[test]
fn token_digest_known_value() {
    assert_eq!(token_hash("token"), "3c469e9d6c5875d37a43f353d4f88e61fcf812c66eee3457465a40b0da4153e0");
}

#[test]
fn a_put_is_recorded_as_what_it_did() {
    let op = PendingOp::put("c", "k", "new", None);
    assert_eq!((op.action, op.cid.as_deref(), op.prev), (OplogAction::Create, Some("new"), None));
    let op = PendingOp::put("c", "k", "new", Some("old".to_string()));
    assert_eq!((op.action, op.cid.as_deref(), op.prev.as_deref()), (OplogAction::Update, Some("new"), Some("old")));
    let op = PendingOp::delete("c", "k", Some("old".to_string()));
    assert_eq!((op.action, op.cid, op.prev.as_deref()), (OplogAction::Delete, None, Some("old")));
    let op = PendingOp::create("c", "k", "new");
    assert_eq!((op.collection.as_str(), op.rkey.as_str(), op.prev), ("c", "k", None));
}

#[test]
fn a_commit_numbers_its_entries_and_publishes_last() {
    let ops = vec![PendingOp::create("c", "a", "1"), PendingOp::delete("c", "b", Some("2".to_string()))];
    let step = CommitStep::commit_ops(&space(), "did:plc:a", ops).allocated_at("3k".to_string(), "now");
    match &step {
        CommitStep::Append { entries, next: 0, .. } => {
            assert_eq!(entries.len(), 2);
            for (i, e) in entries.iter().enumerate() {
                assert_eq!((e.rev.as_str(), e.idx, e.space_id.as_str()), ("3k", i as i32, "space-id"));
                assert_eq!((e.author_did.as_str(), e.created_at.as_str(), e.id.len()), ("did:plc:a", "now", 36));
            }
            assert_ne!(entries[0].id, entries[1].id);
        }
        other => panic!("{other:?}"),
    }
    let step = step.appended();
    assert!(matches!(&step, CommitStep::Append { next: 1, .. }));
    let step = step.appended();
    assert!(matches!(&step, CommitStep::Publish { rev, .. } if rev == "3k"));
    assert!(matches!(step.published(), CommitStep::Done { rev } if rev == "3k"));
    let step = CommitStep::commit_ops(&space(), "did:plc:a", vec![]).allocated("3k".to_string());
    assert!(matches!(step, CommitStep::Publish { .. }));
}

#[test]
fn record_uris_are_kept_apart_by_author() {
    let s = space();
    assert_eq!(
        space_record_uri(&s, "did:plc:a", "com.example.item", "k"),
        "at://did:plc:owner/space/com.example.forum/main/did:plc:a/com.example.item/k"
    );
    assert_ne!(space_record_uri(&s, "did:plc:a", "c", "k"), space_record_uri(&s, "did:plc:b", "c", "k"));
}

#[test]
fn a_check_reads_only_what_it_needs() {
    let s = space();
    let create = WriteOp::Create { collection: "c".to_string(), rkey: None, value: Value::Null };
    assert!(matches!(check_before_reading(&s, "did", &create), Ok(None)));
    let put = WriteOp::Update { collection: "c".to_string(), rkey: "k".to_string(), value: Value::Null, swap_record: None };
    assert!(matches!(check_before_reading(&s, "did", &put), Ok(None)));
    let swap = WriteOp::Update { collection: "c".to_string(), rkey: "k".to_string(), value: Value::Null, swap_record: Some("v".to_string()) };
    assert!(matches!(check_before_reading(&s, "did", &swap), Ok(Some(uri)) if uri.ends_with("/did/c/k")));
    let stored = |cid: &str, did: &str| Some(Stored { cid: cid.to_string(), author_did: did.to_string() });
    assert!(check_stored("did", &swap, &stored("v", "other")).is_ok());
    assert!(matches!(check_stored("did", &swap, &stored("w", "did")), Err(AppError::Conflict(m)) if m == "Record CID mismatch"));
    assert!(matches!(check_stored("did", &swap, &None), Err(AppError::NotFound(_))));
    let delete = WriteOp::Delete { collection: "c".to_string(), rkey: "k".to_string(), swap_record: None };
    assert!(check_stored("did", &delete, &stored("v", "did")).is_ok());
    assert!(matches!(check_stored("did", &delete, &stored("v", "other")), Err(AppError::Forbidden(_))));
}

#[test]
fn a_read_that_fails_stops_the_write() {
    let s = space();
    let put = WriteOp::Update { collection: "c".to_string(), rkey: "k".to_string(), value: Value::Null, swap_record: None };
    let step = WriteStep::apply_one_write_at(&s, "did", put, String::new(), "now".to_string());
    match &step {
        WriteStep::ReadCurrent { record } => {
            assert_eq!((record.author_did.as_str(), record.indexed_at.as_str()), ("did", "now"));
            assert_eq!(record.cid, content_cid(&Value::Null));
        }
        other => panic!("{other:?}"),
    }
    let step = step.read(Err(AppError::internal("database is down")));
    assert!(matches!(step, WriteStep::Refused { error: AppError::Internal(m) } if m == "database is down"));
}

#[test]
fn callers_are_named_in_turn() {
    let nobody = XrpcClaims { identity: None, space_credential: None, service_auth: None };
    assert!(matches!(require_auth(&nobody), Err(AppError::Auth(_))));
    assert!(matches!(require_notify_caller(&nobody), Err(AppError::Auth(m)) if m == "This endpoint requires authentication"));
    assert_eq!(require_auth(&account("did:plc:a")).unwrap().did, "did:plc:a");
    let mut both = account("did:plc:a");
    both.service_auth = Some(ServiceAuth { did: "did:plc:server".to_string() });
    assert_eq!(require_notify_caller(&both).unwrap(), "did:plc:a");
    both.identity = None;
    assert_eq!(require_notify_caller(&both).unwrap(), "did:plc:server");
    both.space_credential = Some("token".to_string());
    let step = AuthStep::require_auth_or_credential(&both).verified(Ok("subject".to_string()));
    assert!(matches!(&step, AuthStep::CheckRevoked { token_hash: h, .. } if *h == token_hash("token")));
    assert!(matches!(step.revocation(false), AuthStep::Known { did } if did == "subject"));
}

#[test]
fn membership_is_looked_up_without_a_credential() {
    let step = MembershipStep::require_membership(&space(), true, &None);
    assert!(matches!(step.member(Some(SpaceAccess::ReadSelf)), MembershipStep::Refused { error: AppError::Forbidden(_) }));
    let step = MembershipStep::require_membership(&space(), false, &None);
    assert!(matches!(step.member(Some(SpaceAccess::ReadSelf)), MembershipStep::Admitted { access: SpaceAccess::ReadSelf }));
    assert!(SpaceAccess::Write.can_write() && !SpaceAccess::Read.can_write() && !SpaceAccess::ReadSelf.can_write());
}

#[test]
fn being_in_charge_is_looked_up_for_all_but_the_authority() {
    assert!(matches!(AdminStep::require_space_admin(&space(), "did:plc:owner"), AdminStep::Granted));
    for (mark, granted) in [(None, false), (Some(0), false), (Some(1), true)] {
        let step = AdminStep::require_space_admin(&space(), "did:plc:other");
        assert!(matches!(&step, AdminStep::LookUpUser { query } if query.sql == "SELECT is_super FROM happyview_users WHERE did = ?"));
        assert_eq!(matches!(step.user(mark), AdminStep::Granted), granted);
    }
}

#[test]
fn changing_a_space_changes_what_is_asked_for() {
    let mut before = space();
    before.description = Some("old".to_string());
    let changes = SpaceChanges {
        display_name: Some(Some("Forum".to_string())),
        description: Some(None),
        mint_policy: Some(MintPolicy::Named("open".to_string())),
        app_access: None,
        managing_app_did: None,
        config: None,
    };
    let after = update_space(before, changes);
    assert_eq!(after.display_name.as_deref(), Some("Forum"));
    assert_eq!(after.description, None);
    assert_eq!(after.mint_policy, MintPolicy::Named("open".to_string()));
    assert_eq!(after.app_access, AppAccess::Standard);
    assert_eq!(after.id, "space-id");
}

#[test]
fn credentials_go_before_the_member_does() {
    let step = RemoveMemberStep::remove_member(&space(), "did:plc:m");
    assert!(matches!(&step, RemoveMemberStep::RevokeCredentials { did, .. } if did == "did:plc:m"));
    assert!(matches!(step.revoked().removed(true), RemoveMemberStep::Done));
    let step = RemoveMemberStep::remove_member(&space(), "did:plc:m").revoked().removed(false);
    assert!(matches!(step, RemoveMemberStep::Refused { error: AppError::NotFound(m) } if m == "Member not found in this space"));
}

#[test]
fn an_invite_keeps_only_the_digest_of_its_token() {
    let (invite, token) = invite_with_secret([0xabu8; 24], &space(), "did:plc:owner", None, Some(3), None);
    assert_eq!(token, "ab".repeat(24));
    assert_eq!(invite.token_hash, token_hash(&token));
    assert_eq!((invite.access, invite.uses, invite.max_uses, invite.revoked), (SpaceAccess::Read, 0, Some(3), false));
    let shown: Vec<InviteSummary> = list_invites(&vec![invite]);
    assert_eq!(shown.len(), 1);
    assert_eq!((shown[0].created_by.as_str(), shown[0].max_uses), ("did:plc:owner", Some(3)));
    assert!(revoke_invite(true).is_ok());
    assert!(matches!(revoke_invite(false), Err(AppError::NotFound(m)) if m == "Invite not found"));
}

#[test]
fn an_invite_holds_up_to_its_last_moment() {
    let at = |now: &str| {
        let (invite, token) = invite_with_secret([1u8; 24], &space(), "did:plc:owner", None, None, Some("2024-01-01T00:00:00+00:00".to_string()));
        AcceptStep::accept_invite("did:plc:j", &token).invite_at(Some(invite), now)
    };
    assert!(matches!(at("2024-01-01T00:00:00+00:00"), AcceptStep::FindMember { .. }));
    assert!(matches!(at("2024-01-01T00:00:01+00:00"), AcceptStep::Refused { error: AppError::BadRequest(m) } if m == "This invite has expired"));
    let gone = AcceptStep::FindSpace { space_id: "s".to_string(), access: SpaceAccess::Read }.space(None);
    assert!(matches!(gone, AcceptStep::Refused { error: AppError::Internal(m) } if m == "space vanished after member insert"));
}

#[test]
fn delegation_tokens_hold_for_a_minute() {
    let at = |secs| delegation_token_at(&space(), "did:plc:m", secs, "jti".to_string());
    let (claims, expires_at) = at(1_704_067_200).expect("the seconds have not run out");
    assert_eq!((claims.iss.as_str(), claims.jti.as_str()), ("did:plc:m", "jti"));
    assert_eq!(claims.sub, "at://did:plc:owner/space/com.example.forum/main");
    assert_eq!(claims.aud, "did:plc:owner#atproto_space_host");
    assert_eq!((claims.iat, claims.exp), (1_704_067_200, 1_704_067_260));
    assert_eq!(expires_at, "2024-01-01T00:01:00+00:00");
    let (claims, _) = get_delegation_token(&space(), "did:plc:m", "jti".to_string());
    assert_eq!(claims.exp - claims.iat, 60);
    assert_eq!(at(u64::MAX - 60).expect("the last").0.exp, u64::MAX);
    assert!(at(u64::MAX - 59).is_none());
    assert_eq!((issuing_second(7), issuing_second(u64::MAX)), (7, u64::MAX - 60));
}

#[test]
fn signing_needs_a_key_on_the_curve() {
    let internal = |key: Option<Vec<u8>>| match require_signing_key(&key) {
        Err(AppError::Internal(m)) => m,
        other => panic!("{other:?}"),
    };
    assert_eq!(internal(None), "TOKEN_ENCRYPTION_KEY is required for space credentials");
    let bad = "failed to derive delegation signing key: signature error";
    assert_eq!(internal(Some(vec![0; 32])), bad);
    assert_eq!(internal(Some(vec![0xff; 32])), bad);
    assert_eq!(internal(Some(vec![1; 33])), bad);
    assert_eq!(internal(Some(vec![1; 23])), bad);
    let order = [
        0xff, 0xff, 0xff, 0xff, 0xff, 0xff, 0xff, 0xff, 0xff, 0xff, 0xff, 0xff, 0xff, 0xff, 0xff, 0xfe, 0xba, 0xae,
        0xdc, 0xe6, 0xaf, 0x48, 0xa0, 0x3b, 0xbf, 0xd2, 0x5e, 0x8c, 0xd0, 0x36, 0x41, 0x41,
    ];
    assert_eq!(internal(Some(order.to_vec())), bad);
    let mut below = order.to_vec();
    below[31] = 0x40;
    assert!(require_signing_key(&Some(below)).is_ok());
    assert!(require_signing_key(&Some(vec![1; 32])).is_ok());
    assert!(require_signing_key(&Some(vec![1; 24])).is_ok());
}

#[test]
fn a_credential_goes_to_the_member_that_the_token_was_issued_to() {
    let key = Some(vec![1u8; 32]);
    let begin = || CredentialStep::get_space_credential(&account("did:plc:m"), &key, "grant".to_string());
    let verify = || begin().peeked(Some("at://did:plc:owner/space/t/k".to_string())).subject(Some("did:plc:owner".to_string()));
    assert!(matches!(begin().peeked(None), CredentialStep::Refused { error: AppError::Auth(m) } if m == "invalid delegation token"));
    assert!(matches!(verify(), CredentialStep::Verify { audience, grant, .. } if audience == "did:plc:owner#atproto_space_host" && grant == "grant"));
    let unknown = begin().peeked(Some("junk".to_string())).subject(None);
    assert!(matches!(unknown, CredentialStep::Verify { audience, .. } if audience == "#atproto_space_host"));
    let token = |iss: &str| Ok((iss.to_string(), "at://did:plc:owner/space/t/k".to_string()));
    let other = verify().verified(token("did:plc:thief"));
    assert!(matches!(other, CredentialStep::Refused { error: AppError::Forbidden(m) } if m == "delegation token was issued to a different account"));
    let bad = verify().verified(Err(AppError::auth("expired")));
    assert!(matches!(bad, CredentialStep::Refused { error: AppError::Auth(m) } if m == "expired"));
    let missing = verify().verified(token("did:plc:m")).space(None);
    assert!(matches!(missing, CredentialStep::Refused { error: AppError::NotFound(_) }));
    let removed = verify().verified(token("did:plc:m")).space(Some(space())).member(None);
    assert!(matches!(removed, CredentialStep::Refused { error: AppError::Forbidden(m) } if m == "You are not a member of this space"));
    let issued = verify().verified(token("did:plc:m")).space(Some(space())).member(Some(SpaceAccess::ReadSelf));
    assert!(matches!(issued, CredentialStep::Issue { did, .. } if did == "did:plc:m"));
    let nobody = XrpcClaims { identity: None, space_credential: None, service_auth: None };
    assert!(matches!(CredentialStep::get_space_credential(&nobody, &key, "g".to_string()), CredentialStep::Refused { error: AppError::Auth(_) }));
    let keyless = CredentialStep::get_space_credential(&account("did:plc:m"), &None, "g".to_string());
    assert!(matches!(keyless, CredentialStep::Refused { error: AppError::Internal(_) }));
}

#[test]
fn api_clients_are_looked_up_by_their_key() {
    let q = resolve_client_id_url(account("did").identity.as_ref().unwrap()).unwrap();
    assert_eq!(q.sql, "SELECT client_id_url FROM happyview_api_clients WHERE client_key = ?");
    assert!(resolve_client_id_url(&Claims { did: "did".to_string(), client_key: None }).is_none());
}

#[test]
fn a_fresh_identifier_is_a_random_uuid() {
    let id = new_id();
    assert_ne!(id, new_id());
    assert_eq!(id.len(), 36);
    for (i, c) in id.chars().enumerate() {
        match i {
            8 | 13 | 18 | 23 => assert_eq!(c, '-'),
            14 => assert_eq!(c, '4'),
            19 => assert!("89ab".contains(c)),
            _ => assert!(c.is_ascii_digit() || ('a'..='f').contains(&c)),
        }
    }
}
