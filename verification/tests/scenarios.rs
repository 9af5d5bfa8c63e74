//! Whole requests, carried out against a store in memory.

use std::collections::{BTreeMap, VecDeque};

use happyview_spaces::access::{Claims, ServiceAuth, XrpcClaims};
use happyview_spaces::batch::BatchStep;
use happyview_spaces::entry::{AuthorityStep, EntryStep, Question};
use happyview_spaces::error::AppError;
use happyview_spaces::invites::{create_invite, AcceptStep};
use happyview_spaces::oplog::{decode_rows, OpCursor, OplogRow};
use happyview_spaces::reads::{get_latest_commit, get_record, LatestCommit, RepoOpsStep, RepoState};
use happyview_spaces::service::{content_cid, CommitStep};
use happyview_spaces::spaces::{add_member, CreateSpaceStep, NewSpace};
use happyview_spaces::tid::next_tid_after;
use happyview_spaces::types::{
    AppAccess, MintPolicy, OplogAction, OplogEntry, Space, SpaceAccess, SpaceConfig, SpaceInvite,
    SpaceRecord,
};
use happyview_spaces::writes::{space_record_uri, Stored, WriteOp, WriteResult, WriteStep};
use serde_json::Value;

const COLLECTION: &str = "com.example.item";

fn value(key: &str, text: &str) -> Value {
    let mut m = serde_json::Map::new();
    m.insert(key.to_string(), Value::from(text));
    Value::Object(m)
}

fn config_with_allowed_collections(allowed: &[&str]) -> SpaceConfig {
    let mut config = SpaceConfig::standard();
    let list: Vec<Value> = allowed.iter().map(|s| Value::from(*s)).collect();
    config.extra.insert("allowedCollections".to_string(), Value::Array(list));
    config
}

fn copy(space: &Space) -> Space {
    Space {
        id: space.id.clone(),
        did: space.did.clone(),
        authority_did: space.authority_did.clone(),
        creator_did: space.creator_did.clone(),
        type_nsid: space.type_nsid.clone(),
        skey: space.skey.clone(),
        display_name: space.display_name.clone(),
        description: space.description.clone(),
        mint_policy: MintPolicy::MemberList,
        app_access: AppAccess::Standard,
        managing_app_did: space.managing_app_did.clone(),
        config: SpaceConfig {
            membership_public: space.config.membership_public,
            extra: space.config.extra.clone(),
        },
        revision: space.revision.clone(),
        created_at: space.created_at.clone(),
        updated_at: space.updated_at.clone(),
    }
}

fn copy_entry(e: &OplogEntry) -> OplogEntry {
    OplogEntry {
        id: e.id.clone(),
        space_id: e.space_id.clone(),
        author_did: e.author_did.clone(),
        rev: e.rev.clone(),
        idx: e.idx,
        action: e.action,
        collection: e.collection.clone(),
        rkey: e.rkey.clone(),
        cid: e.cid.clone(),
        prev: e.prev.clone(),
        value: e.value.clone(),
        created_at: e.created_at.clone(),
    }
}

fn copy_invite(i: &SpaceInvite) -> SpaceInvite {
    SpaceInvite {
        id: i.id.clone(),
        space_id: i.space_id.clone(),
        token_hash: i.token_hash.clone(),
        created_by: i.created_by.clone(),
        access: i.access,
        max_uses: i.max_uses,
        uses: i.uses,
        expires_at: i.expires_at.clone(),
        revoked: i.revoked,
        created_at: i.created_at.clone(),
    }
}

fn account(did: &str) -> XrpcClaims {
    XrpcClaims {
        identity: Some(Claims { did: did.to_string(), client_key: None }),
        space_credential: None,
        service_auth: None,
    }
}

fn nobody() -> XrpcClaims {
    XrpcClaims { identity: None, space_credential: None, service_auth: None }
}

fn holder(token: &str) -> XrpcClaims {
    XrpcClaims { identity: None, space_credential: Some(token.to_string()), service_auth: None }
}

/// A store in memory, with one space in it.
struct World {
    space: Space,
    members: BTreeMap<String, SpaceAccess>,
    records: BTreeMap<String, SpaceRecord>,
    log: Vec<OplogEntry>,
    revs: BTreeMap<String, String>,
    invites: Vec<SpaceInvite>,
    /// Tokens that verify, by the subject that they speak for.
    credentials: BTreeMap<String, String>,
    revoked: Vec<String>,
    /// What else happens to the store before the write at a position of a batch is carried out.
    meddle: Option<(usize, String)>,
}

impl World {
    fn new(config: SpaceConfig) -> World {
        let authority = "did:plc:authority";
        let space = Space {
            id: "space-id".to_string(),
            did: "did:plc:owner".to_string(),
            authority_did: authority.to_string(),
            creator_did: authority.to_string(),
            type_nsid: "com.example.forum".to_string(),
            skey: "main".to_string(),
            display_name: None,
            description: None,
            mint_policy: MintPolicy::MemberList,
            app_access: AppAccess::Standard,
            managing_app_did: None,
            config,
            revision: None,
            created_at: "2024-01-01T00:00:00+00:00".to_string(),
            updated_at: "2024-01-01T00:00:00+00:00".to_string(),
        };
        let mut members = BTreeMap::new();
        members.insert("did:plc:writer".to_string(), SpaceAccess::Write);
        members.insert("did:plc:reader".to_string(), SpaceAccess::Read);
        World {
            space,
            members,
            records: BTreeMap::new(),
            log: Vec::new(),
            revs: BTreeMap::new(),
            invites: Vec::new(),
            credentials: BTreeMap::new(),
            revoked: Vec::new(),
            meddle: None,
        }
    }

    fn plain() -> World {
        World::new(SpaceConfig::standard())
    }

    fn enter(&self, claims: &XrpcClaims, write: bool) -> Result<(String, Space, SpaceAccess), AppError> {
        self.go_in(EntryStep::enter(claims, write))
    }

    fn go_in(&self, mut step: EntryStep) -> Result<(String, Space, SpaceAccess), AppError> {
        loop {
            step = match step.question() {
                Question::Verify { token } => {
                    let answer = match self.credentials.get(&token) {
                        Some(subject) => Ok(subject.clone()),
                        None => Err(AppError::auth("bad signature")),
                    };
                    step.verified(answer)
                }
                Question::Revoked { token_hash } => {
                    let revoked = self.revoked.contains(&token_hash);
                    step.revocation(revoked)
                }
                Question::Space => step.space(Some(copy(&self.space))),
                Question::Member { space_id, did } => {
                    assert_eq!(space_id, self.space.id);
                    let found = self.members.get(&did).copied();
                    step.member(found)
                }
                Question::Nothing => {
                    return match step {
                        EntryStep::Open { did, space, access } => Ok((did, space, access)),
                        EntryStep::Refused { error } => Err(error),
                        _ => unreachable!(),
                    }
                }
            };
        }
    }

    fn stored(&self, uri: &str) -> Option<Stored> {
        self.records
            .get(uri)
            .map(|r| Stored { cid: r.cid.clone(), author_did: r.author_did.clone() })
    }

    fn swap(&self, uri: &str, swap: &str) -> Result<(), AppError> {
        match self.records.get(uri) {
            None => Err(AppError::not_found("Record not found")),
            Some(r) if r.cid != swap => Err(AppError::conflict("Record CID mismatch")),
            Some(_) => Ok(()),
        }
    }

    fn change(&mut self, write: &mut WriteStep) -> Result<(), AppError> {
        let taken = std::mem::replace(write, WriteStep::Refused { error: AppError::internal("") });
        let (done, back) = match taken {
            WriteStep::Insert { record } => {
                if self.records.contains_key(&record.uri) {
                    (Err(AppError::conflict("Record exists")), WriteStep::Insert { record })
                } else {
                    self.put(&record);
                    (Ok(()), WriteStep::Insert { record })
                }
            }
            WriteStep::Upsert { record, prev } => {
                self.put(&record);
                (Ok(()), WriteStep::Upsert { record, prev })
            }
            WriteStep::UpsertWithSwap { record, swap } => {
                let done = self.swap(&record.uri, &swap);
                if done.is_ok() {
                    self.put(&record);
                }
                (done, WriteStep::UpsertWithSwap { record, swap })
            }
            WriteStep::Delete { uri, collection, rkey, prev } => {
                self.records.remove(&uri);
                (Ok(()), WriteStep::Delete { uri, collection, rkey, prev })
            }
            WriteStep::DeleteWithSwap { uri, collection, rkey, swap } => {
                let done = self.swap(&uri, &swap);
                if done.is_ok() {
                    self.records.remove(&uri);
                }
                (done, WriteStep::DeleteWithSwap { uri, collection, rkey, swap })
            }
            other => unreachable!("{other:?}"),
        };
        *write = back;
        done
    }

    fn put(&mut self, r: &SpaceRecord) {
        self.records.insert(
            r.uri.clone(),
            SpaceRecord {
                uri: r.uri.clone(),
                space_id: r.space_id.clone(),
                author_did: r.author_did.clone(),
                collection: r.collection.clone(),
                rkey: r.rkey.clone(),
                record: r.record.clone(),
                cid: r.cid.clone(),
                indexed_at: r.indexed_at.clone(),
            },
        );
    }

    fn carry_out(&mut self, mut step: BatchStep) -> Result<(Vec<WriteResult>, Option<String>), AppError> {
        let mut at = 0;
        loop {
            step = match step {
                BatchStep::Check { batch, next, uri } => {
                    let found = self.stored(&uri);
                    BatchStep::Check { batch, next, uri }.checked(found)
                }
                BatchStep::Prepare { batch, op } => {
                    if let Some((when, uri)) = &self.meddle {
                        if *when == at {
                            self.records.remove(uri);
                        }
                    }
                    at += 1;
                    BatchStep::Prepare { batch, op }.prepare()
                }
                BatchStep::Write { batch, mut write } => match &write {
                    WriteStep::ReadCurrent { record } => {
                        let found = self.stored(&record.uri);
                        BatchStep::Write { batch, write }.read(Ok(found))
                    }
                    WriteStep::ReadOwned { uri, .. } => {
                        let found = self.stored(uri);
                        BatchStep::Write { batch, write }.read(Ok(found))
                    }
                    _ => {
                        let done = self.change(&mut write);
                        BatchStep::Write { batch, write }.written(done)
                    }
                },
                BatchStep::Commit { results, failure, commit } => match commit {
                    CommitStep::Allocate { space_id, author_did, ops } => {
                        let rev = next_tid_after(self.revs.get(&author_did).map(|s| s.as_str()));
                        self.revs.insert(author_did.clone(), rev.clone());
                        let commit = CommitStep::Allocate { space_id, author_did, ops };
                        BatchStep::Commit { results, failure, commit }.allocated(rev)
                    }
                    CommitStep::Append { space_id, rev, entries, next } => {
                        self.log.push(copy_entry(&entries[next]));
                        let commit = CommitStep::Append { space_id, rev, entries, next };
                        assert_eq!(commit.append_statement().params.len(), 11);
                        BatchStep::Commit { results, failure, commit }.appended()
                    }
                    CommitStep::Publish { space_id, rev } => {
                        self.space.revision = Some(rev.clone());
                        let commit = CommitStep::Publish { space_id, rev };
                        BatchStep::Commit { results, failure, commit }.published()
                    }
                    CommitStep::Done { .. } => unreachable!(),
                },
                BatchStep::Done { results, rev } => return Ok((results, rev)),
                BatchStep::Refused { error } => return Err(error),
            };
        }
    }

    fn apply_writes(
        &mut self,
        claims: &XrpcClaims,
        swap_commit: Option<&str>,
        writes: Vec<WriteOp>,
    ) -> Result<(Vec<WriteResult>, Option<String>), AppError> {
        let (did, space, _) = self.enter(claims, true)?;
        let swap_commit = swap_commit.map(|s| s.to_string());
        self.carry_out(BatchStep::apply_writes(space, did, swap_commit, VecDeque::from(writes)))
    }

    fn create(&mut self, claims: &XrpcClaims, collection: &str, record: Value) -> Result<(String, String), AppError> {
        let (did, space, _) = self.enter(claims, true)?;
        let step = BatchStep::create_record(space, did, collection.to_string(), record);
        self.carry_out(step).map(only)
    }

    fn put_record(
        &mut self,
        claims: &XrpcClaims,
        collection: &str,
        rkey: &str,
        record: Value,
        swap: Option<&str>,
    ) -> Result<(String, String), AppError> {
        let (did, space, _) = self.enter(claims, true)?;
        let step = BatchStep::put_record(
            space,
            did,
            collection.to_string(),
            rkey.to_string(),
            record,
            swap.map(|s| s.to_string()),
        );
        self.carry_out(step).map(only)
    }

    fn delete(&mut self, claims: &XrpcClaims, collection: &str, rkey: &str, swap: Option<&str>) -> Result<(), AppError> {
        let (did, space, _) = self.go_in(EntryStep::enter_account(claims, true))?;
        let step = BatchStep::delete_record(
            space,
            did,
            collection.to_string(),
            rkey.to_string(),
            swap.map(|s| s.to_string()),
        );
        self.carry_out(step).map(|(results, _)| {
            assert!(matches!(results.as_slice(), [WriteResult::Deleted]));
        })
    }

    fn floor(&self, did: &str) -> Option<OpCursor> {
        self.log
            .iter()
            .filter(|e| e.author_did == did)
            .map(|e| (e.rev.clone(), e.idx))
            .min()
            .map(|(rev, idx)| OpCursor { rev, idx })
    }

    fn head(&self, did: &str) -> Option<OpCursor> {
        self.log
            .iter()
            .filter(|e| e.author_did == did)
            .map(|e| (e.rev.clone(), e.idx))
            .max()
            .map(|(rev, idx)| OpCursor { rev, idx })
    }

    fn ops(&self, did: &str, cursor: Option<&str>, limit: Option<i64>) -> (Vec<OplogEntry>, Option<String>, bool) {
        let raw = cursor.map(|s| s.to_string());
        let mut step = RepoOpsStep::list_repo_ops(&self.space.id, did, raw, limit, None);
        if let RepoOpsStep::ReadFloor { .. } = step {
            step = step.floor(self.floor(did));
        }
        if let RepoOpsStep::ReadOps { cursor, query } = step {
            let limit = limit.unwrap_or(100).min(1000) as usize;
            let page: Vec<OplogEntry> = self
                .log
                .iter()
                .filter(|e| e.author_did == did)
                .filter(|e| match &cursor {
                    Some(c) => (e.rev.as_str(), e.idx) > (c.rev.as_str(), c.idx),
                    None => true,
                })
                .take(limit)
                .map(copy_entry)
                .collect();
            step = RepoOpsStep::ReadOps { cursor, query }.ops(page);
        }
        match step {
            RepoOpsStep::Reply { ops, cursor, reset } => (ops, cursor, reset),
            _ => unreachable!(),
        }
    }

    fn latest(&self, did: &str) -> LatestCommit {
        let state = RepoState {
            hash: None,
            ikm: None,
            sig: None,
            mac: None,
            rev: self.revs.get(did).cloned(),
        };
        get_latest_commit(&state, &self.head(did), &self.space).expect("nothing is corrupt")
    }

    fn in_charge(&self, claims: &XrpcClaims, supers: &[&str]) -> Result<(String, Space), AppError> {
        let mut step = AuthorityStep::for_account(claims);
        loop {
            step = match step {
                AuthorityStep::Resolve { did } => {
                    AuthorityStep::Resolve { did }.space(Some(copy(&self.space)))
                }
                AuthorityStep::Authorise { admin, did, space } => {
                    let flag = if supers.contains(&did.as_str()) { Some(1) } else { None };
                    AuthorityStep::Authorise { admin, did, space }.user(flag)
                }
                AuthorityStep::Open { did, space } => return Ok((did, space)),
                AuthorityStep::Refused { error } => return Err(error),
            };
        }
    }

    fn accept(&mut self, did: &str, token: &str) -> Result<(String, SpaceAccess), AppError> {
        let mut step = AcceptStep::accept_invite(did, token);
        loop {
            step = match step {
                AcceptStep::FindInvite { token_hash, did } => {
                    let found = self.invites.iter().find(|i| i.token_hash == token_hash).map(copy_invite);
                    AcceptStep::FindInvite { token_hash, did }.invite(found)
                }
                AcceptStep::FindMember { invite, did } => {
                    let known = self.members.contains_key(&did);
                    AcceptStep::FindMember { invite, did }.member(known)
                }
                AcceptStep::AddMember { invite, member } => {
                    self.members.insert(member.did.clone(), member.access);
                    AcceptStep::AddMember { invite, member }.added()
                }
                AcceptStep::CountUse { invite, access } => {
                    let i = self.invites.iter_mut().find(|i| i.id == invite.id).unwrap();
                    i.uses += 1;
                    AcceptStep::CountUse { invite, access }.counted()
                }
                AcceptStep::FindSpace { space_id, access } => {
                    let found = if space_id == self.space.id { Some(copy(&self.space)) } else { None };
                    AcceptStep::FindSpace { space_id, access }.space(found)
                }
                AcceptStep::Done { uri, access } => return Ok((uri, access)),
                AcceptStep::Refused { error } => return Err(error),
            };
        }
    }

    fn invite(&mut self, access: Option<SpaceAccess>, max_uses: Option<i64>, expires_at: Option<&str>) -> String {
        let (did, space) = self.in_charge(&account("did:plc:authority"), &[]).expect("authority creates invite");
        let (invite, token) = create_invite(&space, &did, access, max_uses, expires_at.map(|s| s.to_string()));
        self.invites.push(invite);
        token
    }
}

fn only((results, rev): (Vec<WriteResult>, Option<String>)) -> (String, String) {
    assert!(rev.is_some());
    assert_eq!(results.len(), 1);
    match results.into_iter().next() {
        Some(WriteResult::Written { uri, cid }) => (uri, cid),
        other => panic!("{other:?}"),
    }
}

fn create_op(rkey: Option<&str>, v: Value) -> WriteOp {
    WriteOp::Create {
        collection: COLLECTION.to_string(),
        rkey: rkey.map(|s| s.to_string()),
        value: v,
    }
}

fn update_op(rkey: &str, v: Value, swap: Option<&str>) -> WriteOp {
    WriteOp::Update {
        collection: COLLECTION.to_string(),
        rkey: rkey.to_string(),
        value: v,
        swap_record: swap.map(|s| s.to_string()),
    }
}

fn delete_op(rkey: &str, swap: Option<&str>) -> WriteOp {
    WriteOp::Delete {
        collection: COLLECTION.to_string(),
        rkey: rkey.to_string(),
        swap_record: swap.map(|s| s.to_string()),
    }
}

fn writer() -> XrpcClaims {
    account("did:plc:writer")
}

#[test]
fn create_record_succeeds_for_write_member_and_is_retrievable() {
    let mut w = World::plain();
    let (uri, cid) = w.create(&writer(), COLLECTION, value("text", "hello")).expect("created");
    assert!(uri.starts_with("at://did:plc:owner/space/com.example.forum/main/did:plc:writer/com.example.item/"));
    assert!(cid.starts_with("bafyrei"));
    let stored = get_record(w.records.remove(&uri)).expect("retrievable");
    assert_eq!(stored.cid, cid);
    assert_eq!(stored.record, value("text", "hello"));
    assert_eq!(stored.author_did, "did:plc:writer");
    assert_eq!(stored.rkey.len(), 13);
    assert!(w.space.revision.is_some());
}

#[test]
fn strangers_and_readers_cannot_write() {
    let mut w = World::plain();
    let e = w.create(&account("did:plc:stranger"), COLLECTION, value("text", "no")).unwrap_err();
    assert!(matches!(e, AppError::Forbidden(m) if m == "You are not a member of this space"));
    let e = w.create(&account("did:plc:reader"), COLLECTION, value("text", "no")).unwrap_err();
    assert!(matches!(e, AppError::Forbidden(m) if m == "Write access is required for this action"));
    let e = w.delete(&account("did:plc:stranger"), COLLECTION, "rk1", None).unwrap_err();
    assert!(matches!(e, AppError::Forbidden(_)));
    assert!(w.records.is_empty() && w.log.is_empty());
}

#[test]
fn create_record_rejects_unauthenticated() {
    let mut w = World::plain();
    let e = w.create(&nobody(), COLLECTION, value("text", "no")).unwrap_err();
    assert_eq!(e.status_code(), 401);
    assert!(matches!(e, AppError::Auth(m) if m == "This endpoint requires authentication"));
}

#[test]
fn put_record_rejects_unauthenticated() {
    let mut w = World::plain();
    let e = w.put_record(&nobody(), COLLECTION, "rk", value("text", "no"), None).unwrap_err();
    assert_eq!(e.status_code(), 401);
    assert!(w.records.is_empty() && w.log.is_empty());
}

#[test]
fn put_record_rejects_non_member() {
    let mut w = World::plain();
    let e = w.put_record(&account("did:plc:stranger"), COLLECTION, "rk", value("text", "no"), None).unwrap_err();
    assert_eq!(e.status_code(), 403);
    assert!(w.records.is_empty() && w.log.is_empty());
}

#[test]
fn delete_record_rejects_unauthenticated() {
    let mut w = World::plain();
    let e = w.delete(&nobody(), COLLECTION, "rk", None).unwrap_err();
    assert_eq!(e.status_code(), 401);
}

#[test]
fn delete_record_rejects_non_member() {
    let mut w = World::plain();
    let e = w.delete(&account("did:plc:stranger"), "com.example.item", "rk1", None).unwrap_err();
    assert!(matches!(e, AppError::Forbidden(_)), "{e:?}");
}

#[test]
fn delete_record_author_can_delete_own_record() {
    let mut w = World::plain();
    let (uri, cid) = w.put_record(&writer(), COLLECTION, "mine", value("text", "mine"), None).unwrap();
    w.delete(&writer(), COLLECTION, "mine", None).expect("one's own");
    assert!(!w.records.contains_key(&uri));
    let last = w.log.last().unwrap();
    assert_eq!((last.action, last.cid.as_deref(), last.prev.as_deref()), (OplogAction::Delete, None, Some(cid.as_str())));
}

#[test]
fn a_credential_makes_no_difference_to_a_delete() {
    let mut w = World::plain();
    let uri = w.space.uri();
    w.credentials.insert("token".to_string(), uri);
    w.put_record(&writer(), COLLECTION, "rk", value("text", "v"), None).unwrap();
    let e = w.delete(&holder("token"), COLLECTION, "rk", None).unwrap_err();
    assert_eq!(e.status_code(), 401);
    let mut claims = writer();
    claims.space_credential = Some("token".to_string());
    w.delete(&claims, COLLECTION, "rk", None).expect("as a member");
    assert!(w.records.is_empty());
}

#[test]
fn apply_writes_rejects_unauthenticated() {
    let mut w = World::plain();
    let e = w.apply_writes(&nobody(), None, vec![create_op(None, value("text", "no"))]).unwrap_err();
    assert_eq!(e.status_code(), 401);
    assert!(w.records.is_empty() && w.log.is_empty());
}

#[test]
fn apply_writes_rejects_read_only_member_and_writes_nothing() {
    let mut w = World::plain();
    let e = w.apply_writes(&account("did:plc:reader"), None, vec![create_op(None, value("text", "no"))]).unwrap_err();
    assert!(matches!(e, AppError::Forbidden(_)), "{e:?}");
    assert!(w.records.is_empty() && w.log.is_empty());
}

#[test]
fn create_record_inserts_and_bumps_revision() {
    let mut w = World::plain();
    let (uri, cid) = w.create(&writer(), "com.example.item", value("text", "hello")).expect("a write-member");
    assert!(uri.starts_with("at://"));
    assert!(cid.starts_with("bafyrei"));
    assert!(w.space.revision.is_some());
}

#[test]
fn put_record_creates_updates_and_rejects_stale_swap() {
    let mut w = World::plain();
    let (uri1, cid1) = w.put_record(&writer(), COLLECTION, "fixedrkey-put", value("text", "v1"), None).expect("creates");
    let (uri2, cid2) = w.put_record(&writer(), COLLECTION, "fixedrkey-put", value("text", "v2"), None).expect("updates");
    assert_eq!(uri1, uri2);
    assert_ne!(cid1, cid2);
    assert_eq!(w.records.len(), 1);
    let e = w.put_record(&writer(), COLLECTION, "fixedrkey-put", value("text", "v3"), Some("bafyreiwrong")).unwrap_err();
    assert_eq!(e.status_code(), 409);
    assert_eq!(w.records[&uri1].record, value("text", "v2"));
    let (_, cid3) = w.put_record(&writer(), COLLECTION, "fixedrkey-put", value("text", "v3"), Some(&cid2)).expect("swaps");
    assert_eq!(w.records[&uri1].cid, cid3);
    let last = w.log.last().unwrap();
    assert_eq!(last.action, OplogAction::Update);
    assert_eq!(last.prev.as_deref(), Some(cid2.as_str()));
}

#[test]
fn delete_record_with_swap_cid() {
    let mut w = World::plain();
    let (uri, cid) = w.put_record(&writer(), COLLECTION, "fixedrkey-del", value("text", "to-delete"), None).unwrap();
    let e = w.delete(&writer(), COLLECTION, "fixedrkey-del", Some("bafyreiwrongwrongwrongwrongwrong")).unwrap_err();
    assert!(matches!(e, AppError::Conflict(m) if m.contains("CID mismatch")));
    assert!(w.records.contains_key(&uri));
    w.delete(&writer(), COLLECTION, "fixedrkey-del", Some(&cid)).expect("deletes");
    assert!(!w.records.contains_key(&uri));
}

#[test]
fn delete_record_missing_returns_not_found() {
    let mut w = World::plain();
    let e = w.delete(&writer(), COLLECTION, "never", None).unwrap_err();
    assert_eq!(e.status_code(), 404);
    assert!(w.log.is_empty() && w.space.revision.is_none());
}

fn seed_foreign(w: &mut World, rkey: &str) -> String {
    let uri = space_record_uri(&w.space, "did:plc:writer", COLLECTION, rkey);
    let record = value("text", "authored by A");
    w.put(&SpaceRecord {
        uri: uri.clone(),
        space_id: w.space.id.clone(),
        author_did: "did:plc:authorA".to_string(),
        collection: COLLECTION.to_string(),
        rkey: rkey.to_string(),
        cid: content_cid(&record),
        record,
        indexed_at: String::new(),
    });
    uri
}

#[test]
fn delete_record_forbidden_when_uri_and_stored_author_diverge() {
    let mut w = World::plain();
    let uri = seed_foreign(&mut w, "fixedrkey-ownership");
    let e = w.delete(&writer(), COLLECTION, "fixedrkey-ownership", None).unwrap_err();
    assert_eq!(e.status_code(), 403);
    assert!(matches!(e, AppError::Forbidden(m) if m == "You can only delete your own records"));
    assert!(w.records.contains_key(&uri));
}

#[test]
fn allowed_collections_hold_for_every_way_of_writing() {
    let mut w = World::new(config_with_allowed_collections(&["com.example.allowed"]));
    let e = w.create(&writer(), "com.example.denied", value("text", "no")).unwrap_err();
    assert!(matches!(e, AppError::BadRequest(m) if m == "collection 'com.example.denied' is not allowed in this space"));
    let e = w.put_record(&writer(), "com.example.denied", "rk", value("text", "no"), None).unwrap_err();
    assert_eq!(e.status_code(), 400);
    let e = w.apply_writes(&writer(), None, vec![create_op(None, value("text", "no"))]).unwrap_err();
    assert_eq!(e.status_code(), 400);
    let e = w.apply_writes(&writer(), None, vec![update_op("rk", value("text", "no"), None)]).unwrap_err();
    assert_eq!(e.status_code(), 400);
    assert!(w.records.is_empty());
    let (uri, _) = w.create(&writer(), "com.example.allowed", value("text", "yes")).expect("allowed");
    assert!(uri.contains("/com.example.allowed/"));
    // A record from before the list can still be deleted.
    let uri = space_record_uri(&w.space, "did:plc:writer", COLLECTION, "old");
    let mut seed = World::plain();
    seed.put_record(&writer(), COLLECTION, "old", value("text", "old"), None).unwrap();
    let old = seed.records.remove(&uri).unwrap();
    w.put(&old);
    w.apply_writes(&writer(), None, vec![delete_op("old", None)]).expect("cleanup is never blocked");
    assert!(!w.records.contains_key(&uri));
    let mut w = World::new(config_with_allowed_collections(&[]));
    w.create(&writer(), "com.example.anything", value("text", "ok")).expect("an empty list allows all");
}

#[test]
fn apply_writes_batch_create_update_delete_succeeds_for_write_member() {
    let mut w = World::plain();
    w.put_record(&writer(), COLLECTION, "upd", value("text", "before"), None).unwrap();
    w.put_record(&writer(), COLLECTION, "del", value("text", "gone"), None).unwrap();
    let (results, rev) = w
        .apply_writes(
            &writer(),
            None,
            vec![
                create_op(Some("new"), value("text", "fresh")),
                update_op("upd", value("text", "after"), None),
                delete_op("del", None),
            ],
        )
        .expect("batch lands");
    assert_eq!(results.len(), 3);
    assert!(matches!(&results[0], WriteResult::Written { uri, .. } if uri.contains("/did:plc:writer/")));
    assert!(matches!(&results[2], WriteResult::Deleted));
    assert_eq!(w.space.revision, rev);
    let uri = |k: &str| space_record_uri(&w.space, "did:plc:writer", COLLECTION, k);
    assert_eq!(w.records[&uri("new")].record, value("text", "fresh"));
    assert_eq!(w.records[&uri("upd")].record, value("text", "after"));
    assert!(!w.records.contains_key(&uri("del")));
    let tail: Vec<&OplogEntry> = w.log.iter().rev().take(3).collect();
    assert!(tail.iter().all(|e| Some(&e.rev) == rev.as_ref()));
    assert_eq!([tail[2].idx, tail[1].idx, tail[0].idx], [0, 1, 2]);
}

#[test]
fn apply_writes_rejects_non_member_and_writes_nothing() {
    let mut w = World::plain();
    for claims in [account("did:plc:stranger"), account("did:plc:reader"), nobody()] {
        let e = w.apply_writes(&claims, None, vec![create_op(Some("a"), value("n", "1"))]).unwrap_err();
        assert!(matches!(e, AppError::Forbidden(_) | AppError::Auth(_)));
    }
    assert!(w.records.is_empty() && w.log.is_empty() && w.revs.is_empty());
}

#[test]
fn apply_writes_delete_rejects_author_mismatch() {
    let mut w = World::plain();
    let uri = seed_foreign(&mut w, "theirs");
    let e = w
        .apply_writes(&writer(), None, vec![create_op(Some("a"), value("n", "1")), delete_op("theirs", None)])
        .unwrap_err();
    assert_eq!(e.status_code(), 403);
    assert!(w.records.contains_key(&uri));
    assert_eq!(w.records.len(), 1, "the create in front of it was not applied");
    assert!(w.log.is_empty());
}

#[test]
fn apply_writes_delete_rejects_author_mismatch_also_with_a_swap() {
    let mut w = World::plain();
    let uri = seed_foreign(&mut w, "theirs");
    let cid = w.records[&uri].cid.clone();
    let e = w
        .apply_writes(&writer(), None, vec![create_op(Some("a"), value("n", "1")), delete_op("theirs", Some(&cid))])
        .unwrap_err();
    assert!(matches!(e, AppError::Forbidden(m) if m == "You can only delete your own records"));
    assert_eq!(w.records.len(), 1, "the create in front of it was not applied");
    assert!(w.log.is_empty());
    // Another version than the stored one is refused as such, and a put asks for no author.
    let e = w.apply_writes(&writer(), None, vec![delete_op("theirs", Some("bafyreiwrong"))]).unwrap_err();
    assert!(matches!(e, AppError::Conflict(m) if m == "Record CID mismatch"));
    w.apply_writes(&writer(), None, vec![update_op("theirs", value("n", "2"), Some(&cid))]).expect("puts");
}

#[test]
fn apply_writes_delete_of_nonexistent_record_returns_not_found() {
    let mut w = World::plain();
    let e = w.apply_writes(&writer(), None, vec![delete_op("never", None)]).unwrap_err();
    assert!(matches!(e, AppError::NotFound(m) if m == "Record not found"));
}

#[test]
fn a_stale_swap_refuses_the_whole_batch() {
    let mut w = World::plain();
    let (_, cid) = w.put_record(&writer(), COLLECTION, "a", value("n", "1"), None).unwrap();
    let before = w.log.len();
    for stale in [
        update_op("a", value("n", "2"), Some("bafyreistale")),
        delete_op("a", Some("bafyreistale")),
        update_op("missing", value("n", "2"), Some(&cid)),
    ] {
        let e = w.apply_writes(&writer(), None, vec![create_op(Some("b"), value("n", "9")), stale]).unwrap_err();
        assert!(matches!(e, AppError::Conflict(_) | AppError::NotFound(_)));
    }
    assert_eq!(w.records.len(), 1);
    assert_eq!(w.log.len(), before);
    w.apply_writes(&writer(), None, vec![delete_op("a", Some(&cid))]).expect("the right version");
}

#[test]
fn a_batch_that_is_stopped_in_the_middle_is_recorded_up_to_there() {
    let mut w = World::plain();
    w.put_record(&writer(), COLLECTION, "a", value("n", "1"), None).unwrap();
    let uri = space_record_uri(&w.space, "did:plc:writer", COLLECTION, "a");
    w.meddle = Some((1, uri));
    let rev_before = w.space.revision.clone();
    let e = w
        .apply_writes(
            &writer(),
            None,
            vec![create_op(Some("b"), value("n", "2")), delete_op("a", None), create_op(Some("c"), value("n", "3"))],
        )
        .unwrap_err();
    assert!(matches!(e, AppError::NotFound(m) if m == "Record not found"));
    let last = w.log.last().unwrap();
    assert_eq!((last.rkey.as_str(), last.idx, last.action), ("b", 0, OplogAction::Create));
    assert_eq!(w.space.revision.as_deref(), Some(last.rev.as_str()));
    assert_ne!(w.space.revision, rev_before);
    let c = space_record_uri(&w.space, "did:plc:writer", COLLECTION, "c");
    assert!(!w.records.contains_key(&c));
}

#[test]
fn an_empty_batch_moves_nothing() {
    let mut w = World::plain();
    let (results, rev) = w.apply_writes(&writer(), None, vec![]).expect("nothing to refuse");
    assert!(results.is_empty());
    assert_eq!(rev, None);
    assert_eq!(w.space.revision, None);
    assert!(w.revs.is_empty() && w.log.is_empty());
}

#[test]
fn swap_commit_has_to_be_the_revision_of_the_space() {
    let mut w = World::plain();
    let mismatch = |e: AppError| matches!(e, AppError::Conflict(m) if m == "swapCommit mismatch");
    assert!(mismatch(w.apply_writes(&writer(), Some("3k"), vec![]).unwrap_err()));
    w.apply_writes(&writer(), Some(""), vec![create_op(None, value("n", "1"))]).expect("no revision yet");
    let rev = w.space.revision.clone().unwrap();
    assert!(mismatch(w.apply_writes(&writer(), Some(""), vec![]).unwrap_err()));
    assert!(mismatch(w.apply_writes(&writer(), Some("3k"), vec![]).unwrap_err()));
    w.apply_writes(&writer(), Some(&rev), vec![create_op(None, value("n", "2"))]).expect("the right revision");
}

#[test]
fn writes_are_recorded_in_the_op_log() {
    let mut w = World::plain();
    let (_, first_cid) = w.put_record(&writer(), COLLECTION, "rk1", value("text", "one"), None).unwrap();
    let (_, second_cid) = w.put_record(&writer(), COLLECTION, "rk1", value("text", "two"), None).unwrap();
    w.delete(&writer(), COLLECTION, "rk1", None).unwrap();
    let (ops, cursor, reset) = w.ops("did:plc:writer", None, None);
    assert_eq!(ops.len(), 3, "one op per write");
    assert_eq!(ops[0].action, OplogAction::Create);
    assert_eq!(ops[0].cid.as_ref(), Some(&first_cid));
    assert_eq!(ops[0].prev, None);
    assert_eq!(ops[1].action, OplogAction::Update);
    assert_eq!(ops[1].cid.as_ref(), Some(&second_cid));
    assert_eq!(ops[1].prev.as_ref(), Some(&first_cid));
    assert_eq!(ops[2].action, OplogAction::Delete);
    assert_eq!(ops[2].cid, None);
    assert_eq!(ops[2].prev.as_ref(), Some(&second_cid));
    assert!(ops[0].rev < ops[1].rev && ops[1].rev < ops[2].rev);
    assert!(!reset);
    assert_eq!(cursor, Some(format!("{}:0", ops[2].rev)));
}

#[test]
fn apply_writes_is_one_revision_and_pages_by_idx() {
    let mut w = World::plain();
    let writes = ["a", "b", "c"].map(|k| create_op(Some(k), value("n", k))).into_iter().collect();
    let (_, rev) = w.apply_writes(&writer(), None, writes).unwrap();
    let batch_rev = rev.expect("applyWrites reports the revision it wrote");
    let (ops, cursor, _) = w.ops("did:plc:writer", None, Some(2));
    assert_eq!(ops.len(), 2);
    assert_eq!((ops[0].rev.as_str(), ops[1].rev.as_str()), (batch_rev.as_str(), batch_rev.as_str()));
    assert_eq!((ops[0].idx, ops[1].idx), (0, 1));
    assert_eq!(cursor, Some(format!("{batch_rev}:1")));
    let (ops, _, _) = w.ops("did:plc:writer", cursor.as_deref(), None);
    assert_eq!(ops.len(), 1, "the tail of the batch must not be skipped");
    assert_eq!(ops[0].idx, 2);
    assert_eq!(ops[0].rkey, "c");
}

#[test]
fn op_values_follow_the_live_record() {
    let mut w = World::plain();
    for text in ["one", "two"] {
        w.put_record(&writer(), COLLECTION, "rk1", value("text", text), None).unwrap();
    }
    w.put_record(&writer(), COLLECTION, "gone", value("text", "x"), None).unwrap();
    w.delete(&writer(), COLLECTION, "gone", None).unwrap();
    // What the join puts beside each operation: the record, while its version is the operation's.
    let rows: Vec<OplogRow> = w
        .log
        .iter()
        .map(|e| {
            let uri = space_record_uri(&w.space, &e.author_did, &e.collection, &e.rkey);
            let live = w.records.get(&uri).filter(|r| Some(&r.cid) == e.cid.as_ref());
            OplogRow {
                id: e.id.clone(),
                space_id: e.space_id.clone(),
                author_did: e.author_did.clone(),
                rev: e.rev.clone(),
                idx: e.idx,
                action: e.action.as_str().to_string(),
                collection: e.collection.clone(),
                rkey: e.rkey.clone(),
                cid: e.cid.clone(),
                prev: e.prev.clone(),
                created_at: e.created_at.clone(),
                record: live.map(|r| r.record.to_string()),
            }
        })
        .collect();
    let ops = decode_rows(&rows).expect("valid rows");
    assert_eq!(ops.len(), 4);
    assert!(ops[0].value.is_none(), "the superseded write carries no value");
    assert_eq!(ops[1].value.as_ref().unwrap()["text"], "two");
    assert!(ops[2].value.is_none() && ops[3].value.is_none());
    assert_eq!(ops[3].action, OplogAction::Delete);
}

#[test]
fn pages_add_up() {
    let mut w = World::plain();
    for batch in [["a", "b", "c"], ["d", "e", "f"]] {
        let writes = batch.map(|k| create_op(Some(k), value("n", k))).into_iter().collect();
        w.apply_writes(&writer(), None, writes).unwrap();
    }
    let keys = |ops: &[OplogEntry]| ops.iter().map(|e| e.rkey.clone()).collect::<Vec<_>>();
    for n in 1..=6 {
        for m in 0..=6 {
            let (first, cursor, _) = w.ops("did:plc:writer", None, Some(n));
            let (second, _, _) = w.ops("did:plc:writer", cursor.as_deref(), Some(m));
            let (both, _, _) = w.ops("did:plc:writer", None, Some(n + m));
            assert_eq!([keys(&first), keys(&second)].concat(), keys(&both));
        }
    }
}

#[test]
fn a_served_cursor_misses_nothing_after_pruning() {
    let mut w = World::plain();
    for (i, key) in ["a", "b", "c", "d"].into_iter().enumerate() {
        w.put_record(&writer(), COLLECTION, key, value("n", key), None).unwrap();
        w.log[i].created_at = format!("2024-01-0{}T00:00:00+00:00", i + 1);
    }
    let at: Vec<String> = w.log.iter().map(|e| OpCursor::format(&e.rev, e.idx)).collect();
    let behind = |w: &World, cursor: &str| {
        let (ops, _, reset) = w.ops("did:plc:writer", Some(cursor), None);
        (ops.into_iter().map(|e| e.rkey).collect::<Vec<_>>(), reset)
    };
    let before: Vec<_> = at.iter().map(|c| behind(&w, c)).collect();
    let newest = w.log[3].rev.clone();
    let cutoff = "2024-01-03T00:00:00+00:00";
    w.log.retain(|e| !(e.created_at.as_str() < cutoff && e.rev < newest));
    assert_eq!(w.log.len(), 2);
    assert!(behind(&w, &at[0]).1 && behind(&w, &at[1]).1, "what was lost is not passed over");
    assert_eq!(behind(&w, &at[2]), before[2]);
    assert_eq!(behind(&w, &at[3]), before[3]);
    // The head stays, whatever its age.
    w.log.retain(|e| !(e.created_at.as_str() < "2030" && e.rev < newest));
    assert_eq!(w.head("did:plc:writer").unwrap().to_wire(), at[3]);
    assert_eq!(behind(&w, &at[3]), (vec![], false));
}

#[test]
fn a_caught_up_cursor_returns_no_ops_and_holds_its_place() {
    let mut w = World::plain();
    w.put_record(&writer(), COLLECTION, "rk1", value("text", "one"), None).unwrap();
    let head = w.latest("did:plc:writer");
    assert!(head.oplog);
    let cursor = head.cursor.expect("head names a cursor");
    let rev = head.rev.expect("head names a rev");
    assert_eq!(cursor, format!("{rev}:0"));
    let (ops, next, reset) = w.ops("did:plc:writer", Some(&cursor), None);
    assert_eq!(ops.len(), 0);
    assert!(!reset);
    assert_eq!(next, Some(cursor), "the caller keeps its place");
}

#[test]
fn a_cursor_below_the_retained_window_asks_for_a_reset() {
    let mut w = World::plain();
    w.put_record(&writer(), COLLECTION, "rk1", value("text", "one"), None).unwrap();
    let (ops, cursor, reset) = w.ops("did:plc:writer", Some("2222222222222:0"), None);
    assert!(reset);
    assert_eq!(ops.len(), 0);
    assert_eq!(cursor, None);
}

#[test]
fn an_untouched_repo_has_no_head_but_still_advertises_the_log() {
    let w = World::plain();
    let latest = w.latest("did:plc:writer");
    assert!(latest.oplog);
    assert_eq!(latest.rev, None);
    assert_eq!(latest.cursor, None);
    assert!(latest.commit.is_none());
}

#[test]
fn a_repo_that_predates_the_log_falls_back_to_the_space_revision() {
    let mut w = World::plain();
    w.space.revision = Some("3legacyrev00".to_string());
    let latest = w.latest("did:plc:writer");
    assert_eq!(latest.rev.as_deref(), Some("3legacyrev00"));
    assert_eq!(latest.cursor, None);
    w.revs.insert("did:plc:writer".to_string(), "3allocated".to_string());
    assert_eq!(w.latest("did:plc:writer").rev.as_deref(), Some("3allocated"));
}

#[test]
fn a_cursor_that_is_none_reads_from_the_start() {
    let mut w = World::plain();
    w.put_record(&writer(), COLLECTION, "rk1", value("text", "one"), None).unwrap();
    let (ops, _, reset) = w.ops("did:plc:writer", Some("rev:notanumber"), None);
    assert_eq!((ops.len(), reset), (1, false));
    let (ops, cursor, reset) = w.ops("did:plc:nobody", None, None);
    assert_eq!((ops.len(), cursor, reset), (0, None, false));
}

#[test]
fn a_space_credential_reads_but_never_writes() {
    let mut w = World::plain();
    let uri = w.space.uri();
    w.credentials.insert("token".to_string(), uri.clone());
    w.credentials.insert("elsewhere".to_string(), "at://did:plc:owner/space/com.example.forum/other".to_string());
    let (did, _, access) = w.enter(&holder("token"), false).expect("reads");
    assert_eq!((did, access), (uri.clone(), SpaceAccess::Read));
    let e = w.enter(&holder("token"), true).unwrap_err();
    assert!(matches!(e, AppError::Forbidden(m) if m == "Write access is required for this action"));
    let e = w.enter(&holder("elsewhere"), false).unwrap_err();
    assert!(matches!(e, AppError::Forbidden(m) if m == "You are not a member of this space"));
    let e = w.enter(&holder("forged"), false).unwrap_err();
    assert!(matches!(e, AppError::Auth(m) if m == "bad signature"));
    // An account with a credential beside it writes by its own membership only if the credential
    // does not count.
    let mut claims = writer();
    claims.space_credential = Some("forged".to_string());
    assert_eq!(w.enter(&claims, true).unwrap().2, SpaceAccess::Write);
    claims.space_credential = Some("token".to_string());
    assert!(w.enter(&claims, true).is_err());
    w.revoked.push("3c469e9d6c5875d37a43f353d4f88e61fcf812c66eee3457465a40b0da4153e0".to_string());
    assert_eq!(w.enter(&claims, true).unwrap().2, SpaceAccess::Write);
    let e = w.enter(&holder("token"), false).unwrap_err();
    assert!(matches!(e, AppError::Auth(m) if m == "space credential has been revoked"));
}

#[test]
fn only_those_in_charge_act_on_a_space() {
    let w = World::plain();
    assert_eq!(w.in_charge(&account("did:plc:authority"), &[]).unwrap().0, "did:plc:authority");
    assert!(w.in_charge(&account("did:plc:super"), &["did:plc:super"]).is_ok());
    let e = w.in_charge(&account("did:plc:notadmin"), &[]).unwrap_err();
    assert!(matches!(e, AppError::Forbidden(m) if m == "Only the space authority can perform this action"));
    assert!(matches!(w.in_charge(&nobody(), &[]).unwrap_err(), AppError::Auth(_)));
    // Servers are known by their token, but a credential names nobody here.
    let server = XrpcClaims {
        identity: None,
        space_credential: None,
        service_auth: Some(ServiceAuth { did: "did:plc:authority".to_string() }),
    };
    assert!(matches!(AuthorityStep::for_server(&server), AuthorityStep::Resolve { did } if did == "did:plc:authority"));
    assert!(matches!(AuthorityStep::for_account(&server), AuthorityStep::Refused { .. }));
    assert!(matches!(AuthorityStep::for_server(&holder("token")), AuthorityStep::Refused { .. }));
    let missing = AuthorityStep::for_account(&account("did:plc:authority")).space(None);
    assert!(matches!(missing, AuthorityStep::Refused { error: AppError::NotFound(m) } if m == "Space not found"));
}

#[test]
fn add_member_requires_admin() {
    let w = World::plain();
    let (did, space) = w.in_charge(&account("did:plc:authority"), &[]).unwrap();
    let m = add_member(&space, &did, "did:plc:newbie", Some(SpaceAccess::Write), None, false).expect("authority may add members");
    assert_eq!((m.did.as_str(), m.access, m.is_delegation), ("did:plc:newbie", SpaceAccess::Write, false));
    assert_eq!(m.granted_by.as_deref(), Some("did:plc:authority"));
    let m = add_member(&space, &did, "did:plc:quiet", None, Some(true), false).unwrap();
    assert_eq!((m.access, m.is_delegation), (SpaceAccess::Read, true));
    let e = add_member(&space, &did, "did:plc:newbie", None, None, true).unwrap_err();
    assert!(matches!(e, AppError::Conflict(m) if m == "Member already exists in this space"));
    assert!(matches!(w.in_charge(&account("did:plc:randomer"), &[]).unwrap_err(), AppError::Forbidden(_)));
}

#[test]
fn invite_roundtrip() {
    let mut w = World::plain();
    let token = w.invite(Some(SpaceAccess::Write), None, None);
    assert_eq!(token.len(), 48);
    let (joined_uri, access) = w.accept("did:plc:joiner", &token).expect("joiner redeems invite");
    assert_eq!(joined_uri, w.space.uri());
    assert_eq!(access, SpaceAccess::Write);
    assert_eq!(w.members.get("did:plc:joiner"), Some(&SpaceAccess::Write));
    assert_eq!(w.invites[0].uses, 1);
    assert_ne!(w.invites[0].token_hash, token);
}

#[test]
fn accept_invite_rejects_revoked() {
    let mut w = World::plain();
    let token = w.invite(None, None, None);
    w.invites[0].revoked = true;
    let e = w.accept("did:plc:joiner-revoked", &token).unwrap_err();
    assert!(matches!(e, AppError::BadRequest(m) if m.to_lowercase().contains("revoked")));
}

#[test]
fn accept_invite_rejects_expired() {
    let mut w = World::plain();
    let token = w.invite(None, None, Some("2000-01-01T00:00:00+00:00"));
    let e = w.accept("did:plc:joiner-expired", &token).unwrap_err();
    assert!(matches!(e, AppError::BadRequest(m) if m.to_lowercase().contains("expired")));
    let token = w.invite(None, None, Some("9999-01-01T00:00:00+00:00"));
    w.accept("did:plc:joiner-in-time", &token).expect("not expired yet");
}

#[test]
fn accept_invite_rejects_after_max_uses_exhausted() {
    let mut w = World::plain();
    let token = w.invite(None, Some(1), None);
    w.accept("did:plc:joiner-x", &token).expect("first accept (X) should succeed");
    let e = w.accept("did:plc:joiner-y", &token).unwrap_err();
    assert!(matches!(e, AppError::BadRequest(m) if m.to_lowercase().contains("maximum uses")));
}

#[test]
fn accept_invite_rejects_already_member() {
    let mut w = World::plain();
    let token = w.invite(None, None, None);
    w.accept("did:plc:joiner-twice", &token).expect("first accept should succeed");
    let e = w.accept("did:plc:joiner-twice", &token).unwrap_err();
    assert!(matches!(e, AppError::Conflict(_)));
    let e = w.accept("did:plc:joiner", "not-a-token").unwrap_err();
    assert!(matches!(e, AppError::NotFound(m) if m == "Invalid invite token"));
}

fn new_space(type_nsid: &str, skey: &str, config: Option<SpaceConfig>) -> NewSpace {
    NewSpace {
        did: "did:plc:creator".to_string(),
        type_nsid: type_nsid.to_string(),
        skey: skey.to_string(),
        display_name: Some("General".to_string()),
        description: None,
        mint_policy: None,
        app_access: None,
        managing_app_did: None,
        config,
    }
}

fn make(config: Option<SpaceConfig>, declared: Option<Vec<&str>>) -> Space {
    let declared = declared.map(|l| l.into_iter().map(|s| s.to_string()).collect());
    let step = CreateSpaceStep::create_space(new_space("com.example.chat", "general", config))
        .existing(false)
        .declared(declared);
    match &step {
        CreateSpaceStep::Insert { space, member } => {
            assert_eq!(member.space_id, space.id);
            assert_eq!(member.did, "did:plc:creator");
            assert_eq!(member.access, SpaceAccess::Write);
            assert_eq!(member.granted_by.as_deref(), Some("did:plc:creator"));
            assert!(!member.is_delegation);
        }
        other => panic!("{other:?}"),
    }
    let step = step.inserted(true);
    assert!(matches!(&step, CreateSpaceStep::PublishKey { .. }));
    match step.key_published().added() {
        CreateSpaceStep::Done { space } => space,
        other => panic!("{other:?}"),
    }
}

#[test]
fn create_space_inserts_and_adds_creator_as_writer() {
    let space = make(None, None);
    assert_eq!(space.authority_did, "did:plc:creator");
    assert_eq!(space.creator_did, "did:plc:creator");
    assert_eq!(space.uri(), "at://did:plc:creator/space/com.example.chat/general");
    assert_eq!(space.display_name.as_deref(), Some("General"));
    assert_eq!(space.mint_policy, MintPolicy::MemberList);
    assert_eq!(space.id.len(), 36);
    assert!(!space.config.membership_public);
    assert!(space.config.extra.is_empty());
    assert_eq!(space.revision, None);
}

#[test]
fn create_space_refuses_what_it_cannot_place() {
    for (t, k) in [("", "general"), ("com.example.chat", "")] {
        let step = CreateSpaceStep::create_space(new_space(t, k, None));
        assert!(matches!(step, CreateSpaceStep::Refused { error: AppError::BadRequest(m) } if m == "type and skey are required"));
    }
    let step = CreateSpaceStep::create_space(new_space("com.example.chat", "general", None)).existing(true);
    assert!(matches!(step, CreateSpaceStep::Refused { error: AppError::Conflict(m) } if m == "A space with this address already exists"));
}

#[test]
fn declared_collections_become_the_allowed_ones() {
    let space = make(None, Some(vec!["com.example.a", "com.example.b"]));
    let listed = space.config.extra.get("allowedCollections").unwrap();
    assert_eq!(listed[0], "com.example.a");
    assert_eq!(listed[1], "com.example.b");
    let space = make(None, Some(vec![]));
    assert!(space.config.extra.is_empty());
    let space = make(Some(config_with_allowed_collections(&["com.example.own"])), Some(vec!["com.example.a"]));
    assert_eq!(space.config.extra["allowedCollections"][0], "com.example.own");
}
