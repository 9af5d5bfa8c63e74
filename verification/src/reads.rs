//! Reading a space: what is shown, to whom, and up to where.

use vstd::prelude::*;
use crate::access::{require_auth, unauthenticated, XrpcClaims};
use crate::encoding::{base64_string, base64_text, url_string, url_text};
use crate::entry::{entry, Answers, EntryStep};
use crate::error::{AppError, ErrorView};
use crate::oplog::{
    behind, can_serve, entry_position, is_log, law_page_statement_selects_the_page, law_pages_join,
    list_ops, list_ops_with_values, next_position, option_position, page, position_less,
    position_of, repo_of, selected, servable, wire_text, OpCursor, Position,
};
use crate::statement::{ParamView, Statement, StatementView};
use crate::text::{
    is_white_space, lemma_span_before, option_text, same_text, span_before, trimmed, trimmed_end,
    trimmed_start,
};
use crate::types::{entry_views, EntryView, OplogEntry, Space, SpaceAccess, SpaceRecord};

verus! {

/// Whether a space is shown to a caller.
#[derive(Debug)]
pub enum VisibilityStep {
    /// Look the caller up among the members.
    LookUpMember { did: String },
    /// The space is shown.
    Visible,
    /// The request is refused.
    Refused { error: AppError },
}

/// Whether a space is shown to a caller: one with public membership to everyone, any other to its
/// authority and its members. To the rest, it does not exist.
pub open spec fn visibility(space: Space, claims: XrpcClaims, is_member: bool) -> Result<(), ErrorView> {
    if space.config.membership_public {
        Ok(())
    } else {
        match claims.identity {
            None => Err(unauthenticated()),
            Some(identity) => if space.authority_did@ == identity.did@ || is_member {
                Ok(())
            } else {
                Err(ErrorView::NotFound("Space not found"@))
            },
        }
    }
}

impl VisibilityStep {
    /// What this step comes to, given whether the caller is a member.
    pub open spec fn leads_to(self, is_member: bool) -> Result<(), ErrorView> {
        match self {
            VisibilityStep::LookUpMember { .. } => if is_member {
                Ok(())
            } else {
                Err(ErrorView::NotFound("Space not found"@))
            },
            VisibilityStep::Visible => Ok(()),
            VisibilityStep::Refused { error } => Err(error@),
        }
    }

    /// The first step for a caller that asks for a space.
    pub fn get_space(space: &Space, claims: &XrpcClaims) -> (r: VisibilityStep)
        ensures
            forall|is_member: bool| #[trigger]
                r.leads_to(is_member) == visibility(*space, *claims, is_member),
            r is LookUpMember <==> {
                &&& !space.config.membership_public
                &&& claims.identity matches Some(identity) && identity.did@ != space.authority_did@
            },
            r matches VisibilityStep::LookUpMember { did } ==> did@ == claims.identity->0.did@,
    {
        if space.config.membership_public {
            return VisibilityStep::Visible;
        }
        match require_auth(claims) {
            Err(error) => VisibilityStep::Refused { error },
            Ok(identity) => if same_text(space.authority_did.as_str(), identity.did.as_str()) {
                VisibilityStep::Visible
            } else {
                VisibilityStep::LookUpMember { did: identity.did.clone() }
            },
        }
    }

    /// Takes the caller's membership, if there is one.
    pub fn member(self, found: Option<SpaceAccess>) -> (r: VisibilityStep)
        requires
            self is LookUpMember,
        ensures
            match found {
                Some(_) => r is Visible,
                None => r matches VisibilityStep::Refused { error } && error@ == ErrorView::NotFound(
                    "Space not found"@,
                ),
            },
            r.leads_to(found is Some) == self.leads_to(found is Some),
    {
        match found {
            Some(_) => VisibilityStep::Visible,
            None => VisibilityStep::Refused { error: AppError::not_found("Space not found") },
        }
    }
}

/// Whether the list of repos of a space is shown without further questions: where membership is
/// public, and to the authority.
pub open spec fn repos_are_open(space: Space, claims: XrpcClaims) -> bool {
    space.config.membership_public || (claims.identity matches Some(identity) && identity.did@
        == space.authority_did@)
}

/// Whether the list of repos of a space, which is the list of those who take part in it, is shown to a
/// caller: like the space itself, and also to whoever holds a credential for it.
pub open spec fn repos_shown(space: Space, claims: XrpcClaims, a: Answers) -> Result<(), ErrorView> {
    if repos_are_open(space, claims) {
        Ok(())
    } else {
        match entry(claims, false, a) {
            Ok(_) => Ok(()),
            Err(e) => Err(e),
        }
    }
}

/// The way into a space that a caller has to take before its repos are listed, if there is one.
pub fn list_repos(space: &Space, claims: &XrpcClaims) -> (r: Option<EntryStep>)
    ensures
        r is None <==> repos_are_open(*space, *claims),
        r matches Some(step) ==> {
            &&& step.wf()
            &&& step.asks_about(option_text(claims.space_credential))
            &&& forall|a: Answers| #[trigger] step.leads_to(a) == entry(*claims, false, a)
        },
{
    if space.config.membership_public {
        return None;
    }
    if let Some(identity) = &claims.identity {
        if same_text(identity.did.as_str(), space.authority_did.as_str()) {
            return None;
        }
    }
    Some(EntryStep::enter(claims, false))
}

/// Who takes part in a space without public membership is shown to nobody but its authority, its
/// members, and those who hold a credential for it that has not been revoked.
pub proof fn law_participants_stay_private(space: Space, claims: XrpcClaims, a: Answers)
    requires
        !space.config.membership_public,
        a.space == Some(space),
    ensures
        repos_shown(space, claims, a) is Ok ==> {
            ||| claims.identity matches Some(identity) && identity.did@ == space.authority_did@
            ||| a.member is Some
            ||| claims.space_credential is Some && a.credential == Some(space.uri_text())
                && !a.credential_revoked
        },
{
}

/// How many items are handed over at once: as many as asked for, up to a limit, or a usual number.
pub open spec fn page_size(asked: Option<i64>, usual: i64, most: i64) -> i64 {
    let n = match asked {
        Some(n) => n,
        None => usual,
    };
    if n < most {
        n
    } else {
        most
    }
}

fn bounded(asked: Option<i64>, usual: i64, most: i64) -> (r: i64)
    ensures
        r == page_size(asked, usual, most),
{
    let n: i64 = match asked {
        Some(n) => n,
        None => usual,
    };
    if n < most {
        n
    } else {
        most
    }
}

/// Whose spaces are listed, and how many of them.
pub fn list_spaces(claims: &XrpcClaims, did: Option<String>, limit: Option<i64>) -> (r: Result<
    (String, i64),
    AppError,
>)
    ensures
        match r {
            Err(e) => claims.identity is None && e@ == unauthenticated(),
            Ok(q) => claims.identity matches Some(identity) && q.0@ == (match did {
                Some(d) => d@,
                None => identity.did@,
            }) && q.1 == page_size(limit, 50, 100),
        },
{
    match require_auth(claims) {
        Err(e) => Err(e),
        Ok(identity) => {
            let did = match did {
                Some(d) => d,
                None => identity.did.clone(),
            };
            Ok((did, bounded(limit, 50, 100)))
        },
    }
}

/// The record that was looked up, or that there is none.
pub fn get_record(found: Option<SpaceRecord>) -> (r: Result<SpaceRecord, AppError>)
    ensures
        match r {
            Ok(record) => found == Some(record),
            Err(e) => found is None && e@ == ErrorView::NotFound("Record not found"@),
        },
{
    match found {
        Some(record) => Ok(record),
        None => Err(AppError::not_found("Record not found")),
    }
}

/// What a request to list records asks for.
#[derive(Debug)]
pub struct ListRecordsQuery {
    pub repo: Option<String>,
    pub limit: Option<i64>,
    pub reverse: Option<bool>,
    pub include_values: Option<bool>,
}

/// Which records are listed.
#[derive(Debug)]
pub struct RecordListing {
    /// Only those of this author, or those of all.
    pub repo: Option<String>,
    pub limit: i64,
    pub reverse: bool,
    pub include_values: bool,
}

/// Whose records are listed. A member that reads only its own gets its own, whatever it asks for.
/// Everyone else gets what it asks for, and, where it asks for nothing in particular, its own; the
/// holder of a credential, who is no author, gets those of all.
pub open spec fn listed_repo(
    did: Seq<char>,
    access: SpaceAccess,
    has_credential: bool,
    asked: Option<Seq<char>>,
) -> Option<Seq<char>> {
    if !has_credential && access is ReadSelf {
        Some(did)
    } else if asked is Some {
        asked
    } else if has_credential {
        None
    } else {
        Some(did)
    }
}

/// Works out which records are listed.
pub fn list_records(
    did: &str,
    access: SpaceAccess,
    has_credential: bool,
    query: ListRecordsQuery,
) -> (r: RecordListing)
    ensures
        option_text(r.repo) == listed_repo(
            did@,
            access,
            has_credential,
            option_text(query.repo),
        ),
        r.limit == page_size(query.limit, 50, 100),
        r.reverse == (query.reverse == Some(true)),
        r.include_values == (query.include_values == Some(true)),
{
    let repo = if !has_credential && access == SpaceAccess::ReadSelf {
        Some(did.to_owned())
    } else {
        match query.repo {
            Some(repo) => Some(repo),
            None => if has_credential {
                None
            } else {
                Some(did.to_owned())
            },
        }
    };
    RecordListing {
        repo,
        limit: bounded(query.limit, 50, 100),
        reverse: match query.reverse {
            Some(b) => b,
            None => false,
        },
        include_values: match query.include_values {
            Some(b) => b,
            None => false,
        },
    }
}

/// What is listed of a record.
#[derive(Debug)]
pub struct RecordSummary {
    pub collection: String,
    pub rkey: String,
    pub cid: String,
    /// The record itself, where it was asked for.
    pub value: Option<serde_json::Value>,
}

/// What is listed of a record, with the record itself or without.
pub open spec fn summary_of(record: SpaceRecord, include_values: bool) -> RecordSummary {
    RecordSummary {
        collection: record.collection,
        rkey: record.rkey,
        cid: record.cid,
        value: if include_values {
            Some(record.record)
        } else {
            None
        },
    }
}

/// Lists records, in order.
pub fn shown_records(records: Vec<SpaceRecord>, include_values: bool) -> (r: Vec<RecordSummary>)
    ensures
        r.len() == records.len(),
        forall|i: int|
            0 <= i < r.len() ==> #[trigger] r@[i] == summary_of(records@[i], include_values),
{
    let mut out: Vec<RecordSummary> = Vec::new();
    for record in it: records.into_iter()
        invariant
            it.seq() == records@,
            out.len() == it.index(),
            forall|i: int|
                0 <= i < it.index() ==> #[trigger] out@[i] == summary_of(
                    records@[i],
                    include_values,
                ),
    {
        out.push(
            RecordSummary {
                collection: record.collection,
                rkey: record.rkey,
                cid: record.cid,
                value: if include_values {
                    Some(record.record)
                } else {
                    None
                },
            },
        );
    }
    out
}

/// A member that reads only its own records is never listed those of another.
pub proof fn law_read_self_lists_its_own(did: Seq<char>, asked: Option<Seq<char>>)
    ensures
        listed_repo(did, SpaceAccess::ReadSelf, false, asked) == Some(did),
{
}

/// What is stored about a repo beside its records: its latest commit, and the mark up to which
/// revisions have been handed out.
#[derive(Debug)]
pub struct RepoState {
    pub hash: Option<Vec<u8>>,
    pub ikm: Option<Vec<u8>>,
    pub sig: Option<Vec<u8>>,
    pub mac: Option<Vec<u8>>,
    pub rev: Option<String>,
}

/// A commit as it is shown, its parts in base 64.
#[derive(Debug)]
pub struct CommitBlock {
    pub ver: u32,
    pub hash: String,
    pub ikm: String,
    pub sig: String,
    pub mac: String,
    pub rev: Option<String>,
}

/// Whether a commit is what is shown of what is stored.
pub open spec fn is_block(block: CommitBlock, state: RepoState) -> bool {
    &&& state.hash is Some && state.ikm is Some && state.sig is Some && state.mac is Some
    &&& block.ver == 1
    &&& block.hash@ == base64_text(state.hash->0@)
    &&& block.ikm@ == base64_text(state.ikm->0@)
    &&& block.sig@ == base64_text(state.sig->0@)
    &&& block.mac@ == base64_text(state.mac->0@)
    &&& option_text(block.rev) == option_text(state.rev)
}

/// What is missing from a stored commit, if anything is.
pub open spec fn commit_fault(state: RepoState) -> Option<ErrorView> {
    if state.hash is None {
        None
    } else if state.ikm is None {
        Some(ErrorView::Internal("corrupt repo state: hash present but ikm missing"@))
    } else if state.sig is None {
        Some(ErrorView::Internal("corrupt repo state: hash present but sig missing"@))
    } else if state.mac is None {
        Some(ErrorView::Internal("corrupt repo state: hash present but mac missing"@))
    } else {
        None
    }
}

/// The commit of a repo as it is shown, if there is one.
pub fn commit_block(state: &RepoState) -> (r: Result<Option<CommitBlock>, AppError>)
    ensures
        match r {
            Err(e) => commit_fault(*state) == Some(e@),
            Ok(None) => state.hash is None,
            Ok(Some(block)) => {
                &&& commit_fault(*state) is None
                &&& is_block(block, *state)
                &&& block.hash@ == base64_text(state.hash->0@)
                &&& block.ikm@ == base64_text(state.ikm->0@)
                &&& block.sig@ == base64_text(state.sig->0@)
                &&& block.mac@ == base64_text(state.mac->0@)
            },
        },
{
    let hash = match &state.hash {
        None => {
            return Ok(None);
        },
        Some(h) => h,
    };
    let ikm = match &state.ikm {
        None => {
            return Err(AppError::internal("corrupt repo state: hash present but ikm missing"));
        },
        Some(v) => v,
    };
    let sig = match &state.sig {
        None => {
            return Err(AppError::internal("corrupt repo state: hash present but sig missing"));
        },
        Some(v) => v,
    };
    let mac = match &state.mac {
        None => {
            return Err(AppError::internal("corrupt repo state: hash present but mac missing"));
        },
        Some(v) => v,
    };
    Ok(
        Some(
            CommitBlock {
                ver: 1,
                hash: base64_string(hash.as_slice()),
                ikm: base64_string(ikm.as_slice()),
                sig: base64_string(sig.as_slice()),
                mac: base64_string(mac.as_slice()),
                rev: state.rev.clone(),
            },
        ),
    )
}

/// Where a repo stands.
#[derive(Debug)]
pub struct LatestCommit {
    pub rev: Option<String>,
    /// Whether the log can be followed. A client must not guess this from an empty log.
    pub oplog: bool,
    /// Where the head stands in the log, for a client that follows it from here on.
    pub cursor: Option<String>,
    pub commit: Option<CommitBlock>,
}

/// The revision that a repo is at: that of its head, or, for a repo from before the log, the one that
/// was handed out last, or else that of the space.
pub open spec fn latest_rev(
    head: Option<Position>,
    allocated: Option<Seq<char>>,
    space_revision: Option<Seq<char>>,
) -> Option<Seq<char>> {
    match head {
        Some(h) => Some(h.0),
        None => match allocated {
            Some(rev) => Some(rev),
            None => space_revision,
        },
    }
}

/// Works out where a repo stands.
pub fn get_latest_commit(state: &RepoState, head: &Option<OpCursor>, space: &Space) -> (r: Result<
    LatestCommit,
    AppError,
>)
    ensures
        match r {
            Err(e) => commit_fault(*state) == Some(e@),
            Ok(latest) => {
                &&& commit_fault(*state) is None
                &&& option_text(latest.rev) == latest_rev(
                    option_position(*head),
                    option_text(state.rev),
                    option_text(space.revision),
                )
                &&& latest.oplog
                &&& option_text(latest.cursor) == (match option_position(*head) {
                    Some(h) => Some(wire_text(h.0, h.1)),
                    None => None,
                })
                &&& match latest.commit {
                    None => state.hash is None,
                    Some(block) => is_block(block, *state),
                }
            },
        },
{
    let commit = match commit_block(state) {
        Ok(c) => c,
        Err(e) => {
            return Err(e);
        },
    };
    let rev = match head {
        Some(h) => Some(h.rev.clone()),
        None => match &state.rev {
            Some(rev) => Some(rev.clone()),
            None => space.revision.clone(),
        },
    };
    let cursor = match head {
        Some(h) => Some(h.to_wire()),
        None => None,
    };
    Ok(LatestCommit { rev, oplog: true, cursor, commit })
}

/// A commit with all its parts.
#[derive(Debug)]
pub struct SignedCommit {
    pub ver: u32,
    pub hash: [u8; 32],
    pub ikm: [u8; 32],
    pub sig: Vec<u8>,
    pub mac: [u8; 32],
    pub rev: String,
}

/// What stands in the way of a repo's commit, if anything does.
pub open spec fn signed_fault(state: RepoState) -> Option<ErrorView> {
    if state.hash is None {
        Some(ErrorView::NotFound("no commit exists for this repo"@))
    } else if state.hash->0@.len() != 32 {
        Some(ErrorView::Internal("corrupt repo state: hash is not 32 bytes"@))
    } else if state.ikm is None {
        Some(ErrorView::Internal("corrupt repo state: missing ikm"@))
    } else if state.ikm->0@.len() != 32 {
        Some(ErrorView::Internal("corrupt repo state: ikm is not 32 bytes"@))
    } else if state.mac is None {
        Some(ErrorView::Internal("corrupt repo state: missing mac"@))
    } else if state.mac->0@.len() != 32 {
        Some(ErrorView::Internal("corrupt repo state: mac is not 32 bytes"@))
    } else if state.sig is None {
        Some(ErrorView::Internal("corrupt repo state: missing sig"@))
    } else if state.rev is None {
        Some(ErrorView::Internal("corrupt repo state: missing rev"@))
    } else {
        None
    }
}

/// Whether a commit has the parts that are stored.
pub open spec fn is_signed(commit: SignedCommit, state: RepoState) -> bool {
    &&& state.hash is Some && state.ikm is Some && state.sig is Some && state.mac is Some
    &&& state.rev is Some
    &&& commit.hash@ == state.hash->0@
    &&& commit.ikm@ == state.ikm->0@
    &&& commit.sig@ == state.sig->0@
    &&& commit.mac@ == state.mac->0@
    &&& commit.rev@ == state.rev->0@
}

fn thirty_two(bytes: &Vec<u8>) -> (r: Option<[u8; 32]>)
    ensures
        match r {
            Some(a) => a@ == bytes@,
            None => bytes@.len() != 32,
        },
{
    if bytes.len() != 32 {
        return None;
    }
    let mut a: [u8; 32] = [0; 32];
    let mut i: usize = 0;
    while i < 32
        invariant
            i <= 32,
            bytes@.len() == 32,
            forall|j: int| 0 <= j < i ==> a@[j] == bytes@[j],
        decreases 32 - i,
    {
        a[i] = bytes[i];
        i = i + 1;
    }
    assert(a@ =~= bytes@);
    Some(a)
}

/// The commit of a repo with all its parts, or what stands in its way.
pub fn get_repo(state: RepoState) -> (r: Result<SignedCommit, AppError>)
    ensures
        match r {
            Err(e) => signed_fault(state) == Some(e@),
            Ok(commit) => {
                &&& signed_fault(state) is None
                &&& commit.ver == 1
                &&& commit.hash@ == state.hash->0@
                &&& commit.ikm@ == state.ikm->0@
                &&& commit.sig == state.sig->0
                &&& commit.mac@ == state.mac->0@
                &&& commit.rev == state.rev->0
                &&& is_signed(commit, state)
            },
        },
{
    let hash = match &state.hash {
        None => {
            return Err(AppError::not_found("no commit exists for this repo"));
        },
        Some(v) => match thirty_two(v) {
            Some(a) => a,
            None => {
                return Err(AppError::internal("corrupt repo state: hash is not 32 bytes"));
            },
        },
    };
    let ikm = match &state.ikm {
        None => {
            return Err(AppError::internal("corrupt repo state: missing ikm"));
        },
        Some(v) => match thirty_two(v) {
            Some(a) => a,
            None => {
                return Err(AppError::internal("corrupt repo state: ikm is not 32 bytes"));
            },
        },
    };
    let mac = match &state.mac {
        None => {
            return Err(AppError::internal("corrupt repo state: missing mac"));
        },
        Some(v) => match thirty_two(v) {
            Some(a) => a,
            None => {
                return Err(AppError::internal("corrupt repo state: mac is not 32 bytes"));
            },
        },
    };
    match state.sig {
        None => Err(AppError::internal("corrupt repo state: missing sig")),
        Some(sig) => match state.rev {
            None => Err(AppError::internal("corrupt repo state: missing rev")),
            Some(rev) => Ok(SignedCommit { ver: 1, hash, ikm, sig, mac, rev }),
        },
    }
}

/// Reading a repo's log on from a cursor.
#[allow(inconsistent_fields)]
#[derive(Debug)]
pub enum RepoOpsStep {
    /// Read where the log begins, to see whether it still reaches back to the cursor.
    ReadFloor { cursor: OpCursor, query: Statement },
    /// Read a page of the log.
    ReadOps { cursor: Option<OpCursor>, query: Statement },
    /// Hand over the page, and where to read on from. With `reset`, the log no longer reaches back
    /// to the cursor, and the reader has to take a snapshot.
    Reply { ops: Vec<OplogEntry>, cursor: Option<String>, reset: bool },
}

/// The page that is handed over, by its views.
pub ghost struct OpsReply {
    pub ops: Seq<EntryView>,
    pub cursor: Option<Seq<char>>,
    pub reset: bool,
}

/// Where a request reads on from. A cursor that is none counts as none.
pub open spec fn asked_position(raw: Option<Seq<char>>) -> Option<Position> {
    match raw {
        Some(s) => position_of(s),
        None => None,
    }
}

/// The written form of a position that may be missing.
pub open spec fn option_wire(p: Option<Position>) -> Option<Seq<char>> {
    match p {
        Some(c) => Some(wire_text(c.0, c.1)),
        None => None,
    }
}

/// What a request is answered with that reads on from a position, given where the log begins and the
/// page that lies behind the position.
pub open spec fn ops_reply(
    cursor: Option<Position>,
    floor: Option<Position>,
    ops: Seq<EntryView>,
) -> OpsReply {
    if cursor is Some && !servable(floor, cursor->0) {
        OpsReply { ops: Seq::empty(), cursor: None, reset: true }
    } else {
        OpsReply { ops, cursor: option_wire(next_position(ops, cursor)), reset: false }
    }
}

/// The query for a page of the log, with or without the records.
pub open spec fn ops_query(
    space_id: Seq<char>,
    did: Seq<char>,
    cursor: Option<Position>,
    limit: i64,
    exclude_values: bool,
) -> StatementView {
    if exclude_values {
        crate::oplog::page_query(
            "SELECT id, space_id, author_did, rev, idx, action, collection, rkey, cid, prev, created_at FROM happyview_space_record_oplog WHERE space_id = ? AND author_did = ? "@,
            ""@,
            "ORDER BY rev, idx LIMIT ?"@,
            space_id,
            did,
            cursor,
            limit,
        )
    } else {
        crate::oplog::page_query(
            "SELECT o.id, o.space_id, o.author_did, o.rev, o.idx, o.action, o.collection, o.rkey, o.cid, o.prev, o.created_at, r.record FROM happyview_space_record_oplog o LEFT JOIN happyview_space_records r ON r.space_id = o.space_id AND r.author_did = o.author_did AND r.collection = o.collection AND r.rkey = o.rkey AND r.cid = o.cid WHERE o.space_id = ? AND o.author_did = ? "@,
            "o."@,
            "ORDER BY o.rev, o.idx LIMIT ?"@,
            space_id,
            did,
            cursor,
            limit,
        )
    }
}

impl RepoOpsStep {
    /// What this step comes to, given the answers that are still to come.
    pub open spec fn leads_to(self, floor: Option<Position>, page: Seq<EntryView>) -> OpsReply {
        match self {
            RepoOpsStep::ReadFloor { cursor, .. } => ops_reply(Some(cursor@), floor, page),
            RepoOpsStep::ReadOps { cursor, .. } => OpsReply {
                ops: page,
                cursor: option_wire(next_position(page, option_position(cursor))),
                reset: false,
            },
            RepoOpsStep::Reply { ops, cursor, reset } => OpsReply {
                ops: entry_views(ops@),
                cursor: option_text(cursor),
                reset,
            },
        }
    }

    /// The statement that reads the page.
    pub open spec fn page_statement(self) -> StatementView {
        match self {
            RepoOpsStep::ReadFloor { query, .. } => query@,
            RepoOpsStep::ReadOps { query, .. } => query@,
            RepoOpsStep::Reply { .. } => StatementView { sql: Seq::empty(), params: Seq::empty() },
        }
    }

    /// The first step for a request.
    pub fn list_repo_ops(
        space_id: &str,
        did: &str,
        cursor: Option<String>,
        limit: Option<i64>,
        exclude_values: Option<bool>,
    ) -> (r: RepoOpsStep)
        ensures
            forall|floor: Option<Position>, page: Seq<EntryView>| #[trigger]
                r.leads_to(floor, page) == ops_reply(
                    asked_position(option_text(cursor)),
                    floor,
                    page,
                ),
            r.page_statement() == ops_query(
                space_id@,
                did@,
                asked_position(option_text(cursor)),
                page_size(limit, 100, 1000),
                exclude_values == Some(true),
            ),
            r.page_statement().params == (match asked_position(option_text(cursor)) {
                Some(c) => seq![
                    ParamView::Text(space_id@),
                    ParamView::Text(did@),
                    ParamView::Text(c.0),
                    ParamView::Text(c.0),
                    ParamView::Int(c.1 as i64),
                    ParamView::Int(page_size(limit, 100, 1000)),
                ],
                None => seq![
                    ParamView::Text(space_id@),
                    ParamView::Text(did@),
                    ParamView::Int(page_size(limit, 100, 1000)),
                ],
            }),
            r is ReadFloor <==> asked_position(option_text(cursor)) is Some,
            !(r is Reply),
    {
        let limit: i64 = bounded(limit, 100, 1000);
        let exclude = match exclude_values {
            Some(b) => b,
            None => false,
        };
        let cursor = match cursor {
            Some(raw) => OpCursor::parse(raw.as_str()),
            None => None,
        };
        match cursor {
            Some(c) => {
                let query = if exclude {
                    list_ops(space_id, did, Some(&c), limit)
                } else {
                    list_ops_with_values(space_id, did, Some(&c), limit)
                };
                RepoOpsStep::ReadFloor { cursor: c, query }
            },
            None => {
                let query = if exclude {
                    list_ops(space_id, did, None, limit)
                } else {
                    list_ops_with_values(space_id, did, None, limit)
                };
                RepoOpsStep::ReadOps { cursor: None, query }
            },
        }
    }

    /// Takes where the log begins.
    pub fn floor(self, floor: Option<OpCursor>) -> (r: RepoOpsStep)
        requires
            self is ReadFloor,
        ensures
            forall|page: Seq<EntryView>| #[trigger]
                r.leads_to(option_position(floor), page) == self.leads_to(
                    option_position(floor),
                    page,
                ),
            if servable(option_position(floor), self->ReadFloor_cursor@) {
                r is ReadOps && r.page_statement() == self.page_statement()
            } else {
                r is Reply
            },
    {
        match self {
            RepoOpsStep::ReadFloor { cursor, query } => if can_serve(&floor, &cursor) {
                RepoOpsStep::ReadOps { cursor: Some(cursor), query }
            } else {
                let ops: Vec<OplogEntry> = Vec::new();
                assert(entry_views(ops@) =~= Seq::<EntryView>::empty());
                RepoOpsStep::Reply { ops, cursor: None, reset: true }
            },
            other => other,
        }
    }

    /// Takes the page.
    pub fn ops(self, ops: Vec<OplogEntry>) -> (r: RepoOpsStep)
        requires
            self is ReadOps,
        ensures
            r is Reply,
            forall|floor: Option<Position>| #[trigger]
                r.leads_to(floor, entry_views(ops@)) == self.leads_to(floor, entry_views(ops@)),
    {
        match self {
            RepoOpsStep::ReadOps { cursor, .. } => {
                let next = if ops.len() > 0 {
                    let last = &ops[ops.len() - 1];
                    assert(entry_views(ops@).last() == last@);
                    Some(OpCursor::format(last.rev.as_str(), last.idx))
                } else {
                    match &cursor {
                        Some(c) => Some(c.to_wire()),
                        None => None,
                    }
                };
                RepoOpsStep::Reply { ops, cursor: next, reset: false }
            },
            other => other,
        }
    }
}

/// A cursor that was read can be written again.
pub proof fn law_read_cursor_is_writable(raw: Seq<char>)
    ensures
        position_of(raw) matches Some(c) ==> crate::oplog::is_wire_rev(c.0),
{
    let s = trimmed(raw);
    let k = span_before(s, ':') as int;
    lemma_span_before(s, ':');
    lemma_trimmed_front(raw);
    if s.len() > 0 && k < s.len() {
        let rev = s.take(k);
        if rev.contains(':') {
            let j = choose|j: int| 0 <= j < rev.len() && rev[j] == ':';
            assert(s[j] == ':');
        }
    }
}

proof fn lemma_trimmed_front(s: Seq<char>)
    ensures
        trimmed(s).len() > 0 ==> !is_white_space(trimmed(s)[0]),
{
    lemma_trimmed_start(s);
    lemma_trimmed_end(trimmed_start(s));
}

proof fn lemma_trimmed_start(s: Seq<char>)
    ensures
        trimmed_start(s).len() > 0 ==> !is_white_space(trimmed_start(s)[0]),
    decreases s.len(),
{
    if s.len() > 0 && is_white_space(s[0]) {
        lemma_trimmed_start(s.skip(1));
    }
}

proof fn lemma_trimmed_end(s: Seq<char>)
    ensures
        trimmed_end(s).len() <= s.len(),
        trimmed_end(s).len() > 0 ==> trimmed_end(s)[0] == s[0],
    decreases s.len(),
{
    if s.len() > 0 && is_white_space(s.last()) {
        lemma_trimmed_end(s.drop_last());
    }
}

/// Following a log: whoever asks again with the cursor of the last answer is handed exactly what lay
/// behind the page before, and nothing twice. The revisions of the log have to be such as a cursor
/// can carry, which every TID is.
pub proof fn law_following_the_log_misses_nothing(
    log: Seq<EntryView>,
    raw: Option<Seq<char>>,
    limit: nat,
    floor: Option<Position>,
)
    requires
        is_log(log),
        forall|i: int| 0 <= i < log.len() ==> crate::oplog::is_wire_rev((#[trigger] log[i]).rev),
        asked_position(raw) is None || servable(floor, asked_position(raw)->0),
    ensures
        ({
            let cursor = asked_position(raw);
            let answer = ops_reply(cursor, floor, page(log, cursor, limit));
            &&& !answer.reset
            &&& answer.ops == page(log, cursor, limit)
            &&& answer.ops + behind(log, asked_position(answer.cursor)) == behind(log, cursor)
        }),
{
    let cursor = asked_position(raw);
    let ops = page(log, cursor, limit);
    law_pages_join(log, cursor, limit);
    let next = next_position(ops, cursor);
    if let Some(c) = next {
        if ops.len() > 0 {
            lemma_page_is_from_log(log, cursor, limit);
            let i = choose|i: int| 0 <= i < log.len() && log[i] == ops.last();
            assert(crate::oplog::is_wire_rev(log[i].rev));
        } else {
            law_read_cursor_is_writable(raw->0);
        }
        crate::oplog::law_cursor_round_trip(c.0, c.1);
    }
}

proof fn lemma_page_is_from_log(log: Seq<EntryView>, cursor: Option<Position>, limit: nat)
    requires
        page(log, cursor, limit).len() > 0,
    ensures
        exists|i: int| 0 <= i < log.len() && log[i] == page(log, cursor, limit).last(),
{
    let ops = page(log, cursor, limit);
    let rest = behind(log, cursor);
    let e = ops.last();
    assert(e == rest[ops.len() - 1]);
    assert(rest.contains(e));
    if let Some(c) = cursor {
        log.lemma_filter_contains_rev(|x: EntryView| position_less(c, entry_position(x)), e);
    }
    assert(log.contains(e));
}

/// A reader that takes up the log where a repo stands is caught up: asking with the cursor that it was
/// given there, it is handed nothing, is not reset, and keeps its place.
pub proof fn law_latest_cursor_is_caught_up(log: Seq<EntryView>, limit: nat)
    requires
        is_log(log),
        log.len() > 0,
        crate::oplog::is_wire_rev(log.last().rev),
    ensures
        ({
            let given = wire_text(log.last().rev, log.last().idx);
            let cursor = asked_position(Some(given));
            let floor = Some(entry_position(log[0]));
            &&& cursor == Some(entry_position(log.last()))
            &&& ops_reply(cursor, floor, page(log, cursor, limit)) == (OpsReply {
                ops: Seq::empty(),
                cursor: Some(given),
                reset: false,
            })
        }),
{
    crate::oplog::law_cursor_round_trip(log.last().rev, log.last().idx);
    crate::oplog::law_caught_up_stays(log, limit);
    assert(page(log, Some(entry_position(log.last())), limit) =~= Seq::<EntryView>::empty());
}

/// A cursor from before the log begins is answered with a reset, and with no operations that might
/// look like all there are.
pub proof fn law_lost_cursor_is_reset(
    cursor: Position,
    floor: Option<Position>,
    ops: Seq<EntryView>,
)
    requires
        floor is None || position_less(cursor, floor->0),
    ensures
        ops_reply(Some(cursor), floor, ops) == (OpsReply {
            ops: Seq::empty(),
            cursor: None,
            reset: true,
        }),
{
}

/// The author of a blob, or that there is none in the space.
pub fn blob_author(found: Option<String>) -> (r: Result<String, AppError>)
    ensures
        match r {
            Ok(did) => found == Some(did),
            Err(e) => found is None && e@ == ErrorView::NotFound("Blob not found in this space"@),
        },
{
    match found {
        Some(did) => Ok(did),
        None => Err(AppError::not_found("Blob not found in this space")),
    }
}

/// Where a blob is fetched from: the server of its author.
pub open spec fn blob_url_text(endpoint: Seq<char>, did: Seq<char>, cid: Seq<char>) -> Seq<char> {
    endpoint + "/xrpc/com.atproto.sync.getBlob?did="@ + url_text(did) + "&cid="@ + url_text(cid)
}

/// Writes where a blob is fetched from.
pub fn blob_url(endpoint: &str, did: &str, cid: &str) -> (r: String)
    ensures
        r@ == blob_url_text(endpoint@, did@, cid@),
{
    let mut s = endpoint.to_owned();
    s.append("/xrpc/com.atproto.sync.getBlob?did=");
    let d = url_string(did);
    s.append(d.as_str());
    s.append("&cid=");
    let c = url_string(cid);
    s.append(c.as_str());
    s
}

/// Whether a fetched blob can be handed on, by the status that it came with.
pub fn blob_status(status: u16, status_text: &str, cid: &str) -> (r: Result<(), AppError>)
    ensures
        match r {
            Ok(_) => 200 <= status < 300,
            Err(e) => !(200 <= status < 300) && e@ == ErrorView::BadGateway(
                "PDS returned "@ + status_text@ + " for blob cid="@ + cid@,
            ),
        },
{
    if 200 <= status && status < 300 {
        Ok(())
    } else {
        let mut m = "PDS returned ".to_owned();
        m.append(status_text);
        m.append(" for blob cid=");
        m.append(cid);
        Err(AppError::BadGateway(m))
    }
}

/// The type that a blob is handed on with: the one that it came with, or plain bytes.
pub fn blob_content_type(header: Option<&str>) -> (r: String)
    ensures
        r@ == (match header {
            Some(t) => t@,
            None => "application/octet-stream"@,
        }),
{
    match header {
        Some(t) => t.to_owned(),
        None => "application/octet-stream".to_owned(),
    }
}

/// What came back when a blob was fetched.
#[derive(Debug)]
pub struct Fetched {
    pub status: u16,
    /// The status as it is shown.
    pub status_text: String,
    /// The type that the blob came with.
    pub content_type: Option<String>,
}

/// A blob on its way from the server of its author to the caller.
#[derive(Debug)]
pub enum BlobStep {
    /// Look up whose record in this space holds the blob.
    FindAuthor { space_id: String, cid: String },
    /// See whether the caller may read what this author wrote.
    CheckAccess { author: String, cid: String },
    /// Find the server of this author.
    FindServer { author: String, cid: String },
    /// Fetch the blob.
    Fetch { url: String, cid: String },
    /// Read what is being fetched.
    ReadBody { content_type: String },
    /// Hand the blob on.
    Deliver { content_type: String },
    /// The request is refused.
    Refused { error: AppError },
}

impl BlobStep {
    /// The first step for a caller who has entered a space.
    pub fn get_space_blob(space: &Space, cid: String) -> (r: BlobStep)
        ensures
            r == (BlobStep::FindAuthor { space_id: space.id, cid }),
    {
        BlobStep::FindAuthor { space_id: space.id.clone(), cid }
    }

    /// Takes the author, if the space has the blob.
    pub fn author(self, found: Option<String>) -> (r: BlobStep)
        requires
            self is FindAuthor,
        ensures
            match found {
                Some(a) => r == (BlobStep::CheckAccess { author: a, cid: self->FindAuthor_cid }),
                None => r matches BlobStep::Refused { error } && error@ == ErrorView::NotFound(
                    "Blob not found in this space"@,
                ),
            },
    {
        match self {
            BlobStep::FindAuthor { cid, .. } => match blob_author(found) {
                Ok(author) => BlobStep::CheckAccess { author, cid },
                Err(error) => BlobStep::Refused { error },
            },
            other => other,
        }
    }

    /// Takes whether the caller may read what the author wrote.
    pub fn allowed(self, answer: Result<(), AppError>) -> (r: BlobStep)
        requires
            self is CheckAccess,
        ensures
            match answer {
                Ok(_) => r == (BlobStep::FindServer {
                    author: self->CheckAccess_author,
                    cid: self->CheckAccess_cid,
                }),
                Err(e) => r == (BlobStep::Refused { error: e }),
            },
    {
        match self {
            BlobStep::CheckAccess { author, cid } => match answer {
                Ok(_) => BlobStep::FindServer { author, cid },
                Err(error) => BlobStep::Refused { error },
            },
            other => other,
        }
    }

    /// Takes the server of the author, or that there is none to be found.
    pub fn server(self, answer: Result<String, AppError>) -> (r: BlobStep)
        requires
            self is FindServer,
        ensures
            match answer {
                Ok(endpoint) => r matches BlobStep::Fetch { url, cid } && url@ == blob_url_text(
                    endpoint@,
                    self->FindServer_author@,
                    self->FindServer_cid@,
                ) && cid == self->FindServer_cid,
                Err(e) => r == (BlobStep::Refused { error: e }),
            },
    {
        match self {
            BlobStep::FindServer { author, cid } => match answer {
                Ok(endpoint) => BlobStep::Fetch {
                    url: blob_url(endpoint.as_str(), author.as_str(), cid.as_str()),
                    cid,
                },
                Err(error) => BlobStep::Refused { error },
            },
            other => other,
        }
    }

    /// Takes what came back from the server, or why nothing did.
    pub fn fetched(self, answer: Result<Fetched, String>) -> (r: BlobStep)
        requires
            self is Fetch,
        ensures
            match answer {
                Err(e) => r matches BlobStep::Refused { error } && error@ == ErrorView::BadGateway(
                    "blob fetch failed: "@ + e@,
                ),
                Ok(f) => if 200 <= f.status < 300 {
                    r matches BlobStep::ReadBody { content_type } && content_type@ == (
                    match f.content_type {
                        Some(t) => t@,
                        None => "application/octet-stream"@,
                    })
                } else {
                    r matches BlobStep::Refused { error } && error@ == ErrorView::BadGateway(
                        "PDS returned "@ + f.status_text@ + " for blob cid="@ + self->Fetch_cid@,
                    )
                },
            },
    {
        match self {
            BlobStep::Fetch { cid, .. } => match answer {
                Err(e) => {
                    let mut m = "blob fetch failed: ".to_owned();
                    m.append(e.as_str());
                    BlobStep::Refused { error: AppError::BadGateway(m) }
                },
                Ok(f) => match blob_status(f.status, f.status_text.as_str(), cid.as_str()) {
                    Err(error) => BlobStep::Refused { error },
                    Ok(_) => {
                        let header = match &f.content_type {
                            Some(t) => Some(t.as_str()),
                            None => None,
                        };
                        BlobStep::ReadBody { content_type: blob_content_type(header) }
                    },
                },
            },
            other => other,
        }
    }

    /// Takes that the blob has been read, or why it could not be.
    pub fn body(self, answer: Result<(), String>) -> (r: BlobStep)
        requires
            self is ReadBody,
        ensures
            match answer {
                Ok(_) => r == (BlobStep::Deliver { content_type: self->ReadBody_content_type }),
                Err(e) => r matches BlobStep::Refused { error } && error@ == ErrorView::BadGateway(
                    "failed to read blob body: "@ + e@,
                ),
            },
    {
        match self {
            BlobStep::ReadBody { content_type } => match answer {
                Ok(_) => BlobStep::Deliver { content_type },
                Err(e) => {
                    let mut m = "failed to read blob body: ".to_owned();
                    m.append(e.as_str());
                    BlobStep::Refused { error: AppError::BadGateway(m) }
                },
            },
            other => other,
        }
    }
}

/// A space with public membership is shown to everyone. Any other is shown to its authority and to its
/// members; to an account that is neither, it does not exist, and who has no account has to say who it
/// is first. No credential changes that.
pub proof fn law_spaces_are_shown_to_their_own(space: Space, claims: XrpcClaims, is_member: bool)
    ensures
        space.config.membership_public ==> visibility(space, claims, is_member) is Ok,
        !space.config.membership_public && claims.identity is None ==> visibility(
            space,
            claims,
            is_member,
        ) == Err::<(), ErrorView>(ErrorView::Auth("This endpoint requires authentication"@)),
        claims.identity is Some && claims.identity->0.did@ == space.authority_did@ ==> visibility(
            space,
            claims,
            is_member,
        ) is Ok,
        claims.identity is Some ==> visibility(space, claims, true) is Ok,
        !space.config.membership_public && claims.identity is Some && claims.identity->0.did@
            != space.authority_did@ ==> visibility(space, claims, false) == Err::<(), ErrorView>(
            ErrorView::NotFound("Space not found"@),
        ),
{
}

/// Who takes part in a space is shown to everyone where membership is public, and else to its authority,
/// to its members, whatever their access, and to whoever holds a credential for it; a stranger is told
/// that it is none of them.
pub proof fn law_participants_are_shown_to_their_own(
    space: Space,
    claims: XrpcClaims,
    a: Answers,
    subject: Seq<char>,
)
    requires
        a.space == Some(space),
    ensures
        space.config.membership_public ==> repos_shown(space, claims, a) is Ok,
        claims.identity is Some && claims.identity->0.did@ == space.authority_did@ ==> repos_shown(
            space,
            claims,
            a,
        ) is Ok,
        claims.identity is Some && a.member is Some ==> repos_shown(space, claims, a) is Ok,
        claims.identity is None && claims.space_credential is Some && a.caller == Ok::<
            Seq<char>,
            ErrorView,
        >(subject) && !a.caller_revoked && a.credential == Some(space.uri_text())
            && !a.credential_revoked ==> repos_shown(space, claims, a) is Ok,
        !space.config.membership_public && claims.identity is Some && claims.identity->0.did@
            != space.authority_did@ && claims.space_credential is None && a.member is None
            ==> repos_shown(space, claims, a) == Err::<(), ErrorView>(
            ErrorView::Forbidden("You are not a member of this space"@),
        ),
        !space.config.membership_public && claims.identity is None && claims.space_credential is None
            ==> repos_shown(space, claims, a) == Err::<(), ErrorView>(
            ErrorView::Auth("This endpoint requires authentication"@),
        ),
{
}

/// As many items are handed over as were asked for, but never more than the limit, and the usual number,
/// within the same limit, where nothing was asked for.
pub proof fn law_pages_keep_to_the_limit(asked: i64, usual: i64, most: i64)
    ensures
        asked <= most ==> page_size(Some(asked), usual, most) == asked,
        asked > most ==> page_size(Some(asked), usual, most) == most,
        page_size(None, usual, most) == page_size(Some(usual), usual, most),
        page_size(Some(asked), usual, most) <= most,
{
}

/// A member that reads every record is listed those that it asks for, and its own where it asks for none
/// in particular, whether or not it writes. The holder of a credential is listed those that it asks
/// for, and else those of all.
pub proof fn law_readers_are_listed_what_they_ask_for(
    did: Seq<char>,
    access: SpaceAccess,
    asked: Seq<char>,
)
    ensures
        access != SpaceAccess::ReadSelf ==> listed_repo(did, access, false, Some(asked)) == Some(
            asked,
        ),
        access != SpaceAccess::ReadSelf ==> listed_repo(did, access, false, None) == Some(did),
        listed_repo(did, access, true, Some(asked)) == Some(asked),
        listed_repo(did, access, true, None) is None,
{
}

/// What is listed of a record is its own, each part under its own name, and the record itself just where
/// it was asked for.
pub proof fn law_listed_records_are_the_stored_ones(record: SpaceRecord)
    ensures
        summary_of(record, true).collection == record.collection,
        summary_of(record, true).rkey == record.rkey,
        summary_of(record, true).cid == record.cid,
        summary_of(record, true).value == Some(record.record),
        summary_of(record, false) == (RecordSummary { value: None, ..summary_of(record, true) }),
{
}

/// Each part of a commit that is shown is the base 64 of the stored part of the same name; so where the
/// commit of a repo is handed out whole, what is shown of it is the base 64 of that commit's own
/// parts, under the same names, and its own revision.
pub proof fn law_commit_is_shown_part_by_part(
    block: CommitBlock,
    commit: SignedCommit,
    state: RepoState,
)
    requires
        is_block(block, state),
    ensures
        block.ver == 1,
        state.hash matches Some(hash) && block.hash@ == base64_text(hash@),
        state.ikm matches Some(ikm) && block.ikm@ == base64_text(ikm@),
        state.sig matches Some(sig) && block.sig@ == base64_text(sig@),
        state.mac matches Some(mac) && block.mac@ == base64_text(mac@),
        option_text(block.rev) == option_text(state.rev),
        is_signed(commit, state) ==> {
            &&& block.hash@ == base64_text(commit.hash@)
            &&& block.ikm@ == base64_text(commit.ikm@)
            &&& block.sig@ == base64_text(commit.sig@)
            &&& block.mac@ == base64_text(commit.mac@)
            &&& option_text(block.rev) == Some(commit.rev@)
        },
{
}

/// A commit that is handed out whole has the stored parts, each under its own name.
pub proof fn law_commit_is_handed_out_part_by_part(commit: SignedCommit, state: RepoState)
    requires
        is_signed(commit, state),
    ensures
        state.hash matches Some(hash) && commit.hash@ == hash@,
        state.ikm matches Some(ikm) && commit.ikm@ == ikm@,
        state.sig matches Some(sig) && commit.sig@ == sig@,
        state.mac matches Some(mac) && commit.mac@ == mac@,
        state.rev matches Some(rev) && commit.rev@ == rev@,
{
}

/// A repo without a hash has no commit, which is no fault where a commit is shown if there is one. One
/// with a hash has every other part, or the first that is missing is named.
pub proof fn law_missing_parts_are_named(state: RepoState)
    ensures
        commit_fault(state) is None <==> state.hash is None || (state.ikm is Some && state.sig is Some
            && state.mac is Some),
        state.hash is Some && state.ikm is None ==> commit_fault(state) == Some(
            ErrorView::Internal("corrupt repo state: hash present but ikm missing"@),
        ),
        state.hash is Some && state.ikm is Some && state.sig is None ==> commit_fault(state) == Some(
            ErrorView::Internal("corrupt repo state: hash present but sig missing"@),
        ),
        state.hash is Some && state.ikm is Some && state.sig is Some && state.mac is None
            ==> commit_fault(state) == Some(
            ErrorView::Internal("corrupt repo state: hash present but mac missing"@),
        ),
{
}

/// The commit of a repo is handed out whole just where every part of it is stored, and those of a fixed
/// length are thirty-two bytes long. Without a hash there is no commit to be found; any other lack is
/// a fault of this server. Whatever can be handed out can be shown.
pub proof fn law_whole_commits_are_handed_out(state: RepoState)
    ensures
        signed_fault(state) is None <==> {
            &&& state.hash matches Some(hash) && hash@.len() == 32
            &&& state.ikm matches Some(ikm) && ikm@.len() == 32
            &&& state.mac matches Some(mac) && mac@.len() == 32
            &&& state.sig is Some
            &&& state.rev is Some
        },
        state.hash is None <==> signed_fault(state) == Some(
            ErrorView::NotFound("no commit exists for this repo"@),
        ),
        signed_fault(state) is Some && state.hash is Some ==> signed_fault(state)->0 is Internal,
        signed_fault(state) is None ==> commit_fault(state) is None,
{
}

/// What stands in the way of a commit is named in the order of hash, initial key material, code,
/// signature and revision: of several lacks, the first.
pub proof fn law_first_lack_is_named(
    hash: Vec<u8>,
    ikm: Vec<u8>,
    mac: Vec<u8>,
    sig: Vec<u8>,
    state: RepoState,
)
    requires
        state.hash == Some(hash),
    ensures
        ({
            let fault = |message: Seq<char>| Some(ErrorView::Internal(message));
            let has_hash = hash@.len() == 32;
            let has_ikm = has_hash && state.ikm == Some(ikm) && ikm@.len() == 32;
            let has_mac = has_ikm && state.mac == Some(mac) && mac@.len() == 32;
            let has_sig = has_mac && state.sig == Some(sig);
            &&& !has_hash ==> signed_fault(state) == fault(
                "corrupt repo state: hash is not 32 bytes"@,
            )
            &&& has_hash && state.ikm is None ==> signed_fault(state) == fault(
                "corrupt repo state: missing ikm"@,
            )
            &&& has_hash && state.ikm == Some(ikm) && ikm@.len() != 32 ==> signed_fault(state)
                == fault("corrupt repo state: ikm is not 32 bytes"@)
            &&& has_ikm && state.mac is None ==> signed_fault(state) == fault(
                "corrupt repo state: missing mac"@,
            )
            &&& has_ikm && state.mac == Some(mac) && mac@.len() != 32 ==> signed_fault(state)
                == fault("corrupt repo state: mac is not 32 bytes"@)
            &&& has_mac && state.sig is None ==> signed_fault(state) == fault(
                "corrupt repo state: missing sig"@,
            )
            &&& has_sig && state.rev is None ==> signed_fault(state) == fault(
                "corrupt repo state: missing rev"@,
            )
        }),
{
}

/// A repo is at the revision of its head, whatever else is stored. Without a head, it is at the one that
/// was handed out to it last, and else at that of its space.
pub proof fn law_head_says_the_revision(
    head: Position,
    allocated: Option<Seq<char>>,
    rev: Seq<char>,
    space_revision: Option<Seq<char>>,
)
    ensures
        latest_rev(Some(head), allocated, space_revision) == Some(head.0),
        latest_rev(None, Some(rev), space_revision) == Some(rev),
        latest_rev(None, None, space_revision) == space_revision,
{
}

/// The statement for a page of the log reads the repo that was asked for. With a cursor, it asks for what
/// lies behind it: its text carries the condition, and between the repo and the limit the cursor's
/// revision is bound twice, and then its index.
pub proof fn law_page_statement_asks_behind_the_cursor(
    space_id: Seq<char>,
    did: Seq<char>,
    c: Position,
    limit: i64,
    exclude_values: bool,
)
    ensures
        ops_query(space_id, did, Some(c), limit, exclude_values).params == seq![
            ParamView::Text(space_id),
            ParamView::Text(did),
            ParamView::Text(c.0),
            ParamView::Text(c.0),
            ParamView::Int(c.1 as i64),
            ParamView::Int(limit),
        ],
        ops_query(space_id, did, None, limit, exclude_values).params == seq![
            ParamView::Text(space_id),
            ParamView::Text(did),
            ParamView::Int(limit),
        ],
        ops_query(space_id, did, Some(c), limit, true).sql
            == "SELECT id, space_id, author_did, rev, idx, action, collection, rkey, cid, prev, created_at FROM happyview_space_record_oplog WHERE space_id = ? AND author_did = ? "@
            + "AND ((rev > ?) OR (rev = ? AND idx > ?)) "@ + "ORDER BY rev, idx LIMIT ?"@,
        ops_query(space_id, did, Some(c), limit, false).sql
            == "SELECT o.id, o.space_id, o.author_did, o.rev, o.idx, o.action, o.collection, o.rkey, o.cid, o.prev, o.created_at, r.record FROM happyview_space_record_oplog o LEFT JOIN happyview_space_records r ON r.space_id = o.space_id AND r.author_did = o.author_did AND r.collection = o.collection AND r.rkey = o.rkey AND r.cid = o.cid WHERE o.space_id = ? AND o.author_did = ? "@
            + "AND ((o.rev > ?) OR (o.rev = ? AND o.idx > ?)) "@ + "ORDER BY o.rev, o.idx LIMIT ?"@,
        ops_query(space_id, did, None, limit, true).sql
            == "SELECT id, space_id, author_did, rev, idx, action, collection, rkey, cid, prev, created_at FROM happyview_space_record_oplog WHERE space_id = ? AND author_did = ? "@
            + "ORDER BY rev, idx LIMIT ?"@,
        ops_query(space_id, did, None, limit, false).sql
            == "SELECT o.id, o.space_id, o.author_did, o.rev, o.idx, o.action, o.collection, o.rkey, o.cid, o.prev, o.created_at, r.record FROM happyview_space_record_oplog o LEFT JOIN happyview_space_records r ON r.space_id = o.space_id AND r.author_did = o.author_did AND r.collection = o.collection AND r.rkey = o.rkey AND r.cid = o.cid WHERE o.space_id = ? AND o.author_did = ? "@
            + "ORDER BY o.rev, o.idx LIMIT ?"@,
{
    reveal_strlit("");
    reveal_strlit("o.");
    reveal_strlit("AND ((");
    reveal_strlit("rev > ?) OR (");
    reveal_strlit("rev = ? AND ");
    reveal_strlit("idx > ?)) ");
    reveal_strlit("AND ((rev > ?) OR (rev = ? AND idx > ?)) ");
    reveal_strlit("AND ((o.rev > ?) OR (o.rev = ? AND o.idx > ?)) ");
    assert(crate::oplog::after_cursor_text(""@) =~= "AND ((rev > ?) OR (rev = ? AND idx > ?)) "@);
    assert(crate::oplog::after_cursor_text("o."@)
        =~= "AND ((o.rev > ?) OR (o.rev = ? AND o.idx > ?)) "@);
}

/// What a request reads from the rows of all repos is the page of the repo that it names, behind the
/// cursor that it brings, up to its limit, with values as without. A cursor that is none reads from the
/// start.
pub proof fn law_request_reads_behind_its_cursor(
    rows: Seq<EntryView>,
    space_id: Seq<char>,
    did: Seq<char>,
    raw: Option<Seq<char>>,
    limit: i64,
    exclude_values: bool,
)
    requires
        0 <= limit,
    ensures
        selected(ops_query(space_id, did, asked_position(raw), limit, exclude_values), rows) == page(
            repo_of(rows, space_id, did),
            match raw {
                Some(s) => position_of(s),
                None => None,
            },
            limit as nat,
        ),
{
    law_page_statement_selects_the_page(
        "SELECT id, space_id, author_did, rev, idx, action, collection, rkey, cid, prev, created_at FROM happyview_space_record_oplog WHERE space_id = ? AND author_did = ? "@,
        ""@,
        "ORDER BY rev, idx LIMIT ?"@,
        rows,
        space_id,
        did,
        asked_position(raw),
        limit,
    );
    law_page_statement_selects_the_page(
        "SELECT o.id, o.space_id, o.author_did, o.rev, o.idx, o.action, o.collection, o.rkey, o.cid, o.prev, o.created_at, r.record FROM happyview_space_record_oplog o LEFT JOIN happyview_space_records r ON r.space_id = o.space_id AND r.author_did = o.author_did AND r.collection = o.collection AND r.rkey = o.rkey AND r.cid = o.cid WHERE o.space_id = ? AND o.author_did = ? "@,
        "o."@,
        "ORDER BY o.rev, o.idx LIMIT ?"@,
        rows,
        space_id,
        did,
        asked_position(raw),
        limit,
    );
}

/// Requests that differ in the repo, the cursor or the limit are asked by different statements.
pub proof fn law_statements_tell_requests_apart(
    space_id: Seq<char>,
    did: Seq<char>,
    cursor: Option<Position>,
    limit: i64,
    other_space_id: Seq<char>,
    other_did: Seq<char>,
    other_cursor: Option<Position>,
    other_limit: i64,
    exclude_values: bool,
    other_exclude_values: bool,
)
    requires
        ops_query(space_id, did, cursor, limit, exclude_values) == ops_query(
            other_space_id,
            other_did,
            other_cursor,
            other_limit,
            other_exclude_values,
        ),
    ensures
        space_id == other_space_id,
        did == other_did,
        cursor == other_cursor,
        limit == other_limit,
{
    let p = ops_query(space_id, did, cursor, limit, exclude_values).params;
    let c: Position = match cursor {
        Some(c) => c,
        None => (Seq::empty(), 0),
    };
    let d: Position = match other_cursor {
        Some(d) => d,
        None => (Seq::empty(), 0),
    };
    law_page_statement_asks_behind_the_cursor(space_id, did, c, limit, exclude_values);
    law_page_statement_asks_behind_the_cursor(
        other_space_id,
        other_did,
        d,
        other_limit,
        other_exclude_values,
    );
    assert(p[0] == ParamView::Text(space_id) && p[0] == ParamView::Text(other_space_id));
    assert(p[1] == ParamView::Text(did) && p[1] == ParamView::Text(other_did));
    assert(p.last() == ParamView::Int(limit) && p.last() == ParamView::Int(other_limit));
    assert(cursor is Some <==> p.len() == 6);
    assert(other_cursor is Some <==> p.len() == 6);
    if cursor is Some {
        assert(p[2] == ParamView::Text(c.0) && p[2] == ParamView::Text(d.0));
        assert(p[4] == ParamView::Int(c.1 as i64) && p[4] == ParamView::Int(d.1 as i64));
    }
}

/// A request is answered with the page that was read, unless its cursor can no longer be served, and with
/// where to read on from: the last operation of the page, and else the place where the request stood.
pub proof fn law_reply_says_where_to_read_on(
    cursor: Option<Position>,
    floor: Option<Position>,
    ops: Seq<EntryView>,
)
    requires
        cursor matches Some(c) ==> (floor matches Some(f) && !position_less(c, f)),
    ensures
        ({
            let answer = ops_reply(cursor, floor, ops);
            &&& !answer.reset
            &&& answer.ops == ops
            &&& ops.len() > 0 ==> answer.cursor == Some(wire_text(ops.last().rev, ops.last().idx))
            &&& ops.len() == 0 ==> answer.cursor == (match cursor {
                Some(c) => Some(wire_text(c.0, c.1)),
                None => None,
            })
        }),
{
}

} // verus!
