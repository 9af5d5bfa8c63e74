//! The rules that every write to a space keeps, whichever way it comes.

use vstd::prelude::*;
use crate::clock::{is_stamp, now_rfc3339};
use crate::error::{AppError, ErrorView};
use crate::ids::{hex_string, hex_text, is_random_id, new_id, sha256, sha256_digest};
use crate::json::{as_strings, entry, json_bytes, json_entries, json_strings, option_texts, to_json_bytes};
use crate::oplog::append_op;
use crate::statement::Statement;
use crate::text::{option_text, same_text};
use crate::types::{entry_views, EntryView, OplogAction, OplogEntry, Space};

verus! {

/// A write that has landed, and waits to be recorded in the op log of its repo.
#[derive(Debug)]
pub struct PendingOp {
    pub action: OplogAction,
    pub collection: String,
    pub rkey: String,
    /// What the record holds now; nothing after a delete.
    pub cid: Option<String>,
    /// What the record held before, if it existed.
    pub prev: Option<String>,
}

/// A write that waits to be recorded, with texts by their characters.
pub ghost struct OpView {
    pub action: OplogAction,
    pub collection: Seq<char>,
    pub rkey: Seq<char>,
    pub cid: Option<Seq<char>>,
    pub prev: Option<Seq<char>>,
}

impl View for PendingOp {
    type V = OpView;

    open spec fn view(&self) -> OpView {
        OpView {
            action: self.action,
            collection: self.collection@,
            rkey: self.rkey@,
            cid: option_text(self.cid),
            prev: option_text(self.prev),
        }
    }
}

/// The recording of a record that was not there before.
pub open spec fn create_op(collection: Seq<char>, rkey: Seq<char>, cid: Seq<char>) -> OpView {
    OpView { action: OplogAction::Create, collection, rkey, cid: Some(cid), prev: None }
}

/// The recording of a record that is gone.
pub open spec fn delete_op(collection: Seq<char>, rkey: Seq<char>, prev: Option<Seq<char>>) -> OpView {
    OpView { action: OplogAction::Delete, collection, rkey, cid: None, prev }
}

/// The recording of a record that was put: a create or an update, by what was there before.
pub open spec fn put_op(
    collection: Seq<char>,
    rkey: Seq<char>,
    cid: Seq<char>,
    prev: Option<Seq<char>>,
) -> OpView {
    OpView {
        action: if prev is Some {
            OplogAction::Update
        } else {
            OplogAction::Create
        },
        collection,
        rkey,
        cid: Some(cid),
        prev,
    }
}

impl PendingOp {
    /// A record was created.
    pub fn create(collection: &str, rkey: &str, cid: &str) -> (r: PendingOp)
        ensures
            r@ == create_op(collection@, rkey@, cid@),
    {
        PendingOp {
            action: OplogAction::Create,
            collection: collection.to_owned(),
            rkey: rkey.to_owned(),
            cid: Some(cid.to_owned()),
            prev: None,
        }
    }

    /// A record was deleted.
    pub fn delete(collection: &str, rkey: &str, prev: Option<String>) -> (r: PendingOp)
        ensures
            r@ == delete_op(collection@, rkey@, option_text(prev)),
    {
        PendingOp {
            action: OplogAction::Delete,
            collection: collection.to_owned(),
            rkey: rkey.to_owned(),
            cid: None,
            prev,
        }
    }

    /// A record was put. Clients replay puts blindly, so the log works out what actually happened:
    /// an update where the record existed, and a create where it did not.
    pub fn put(collection: &str, rkey: &str, cid: &str, prev: Option<String>) -> (r: PendingOp)
        ensures
            r@ == put_op(collection@, rkey@, cid@, option_text(prev)),
    {
        match prev {
            Some(prev) => PendingOp {
                action: OplogAction::Update,
                collection: collection.to_owned(),
                rkey: rkey.to_owned(),
                cid: Some(cid.to_owned()),
                prev: Some(prev),
            },
            None => PendingOp::create(collection, rkey, cid),
        }
    }
}

/// A list of writes that wait to be recorded, each by its view.
pub open spec fn op_views(ops: Seq<PendingOp>) -> Seq<OpView> {
    ops.map_values(|op: PendingOp| op@)
}

/// A record's content identifier: the front of the digest of its serialisation, in hexadecimal.
pub open spec fn cid_text(record: serde_json::Value) -> Seq<char> {
    "bafyrei"@ + hex_text(sha256(json_bytes(record)).take(20))
}

/// Computes a record's content identifier.
pub fn content_cid(record: &serde_json::Value) -> (r: String)
    ensures
        r@ == cid_text(*record),
{
    let bytes = to_json_bytes(record);
    let mut digest = sha256_digest(bytes.as_slice());
    digest.truncate(20);
    assert(digest@ =~= sha256(json_bytes(*record)).take(20));
    let mut cid = "bafyrei".to_owned();
    let hex = hex_string(digest.as_slice());
    cid.append(hex.as_str());
    cid
}

/// The collections that a space names as the allowed ones, if it names any as a list. What is no
/// text in the list allows nothing.
pub open spec fn allowed_collections(space: Space) -> Option<Seq<Option<Seq<char>>>> {
    if json_entries(space.config.extra).contains_key("allowedCollections"@) {
        json_strings(json_entries(space.config.extra)["allowedCollections"@])
    } else {
        None
    }
}

/// Whether a space takes records of a collection: all do where the space names none.
pub open spec fn collection_allowed(space: Space, collection: Seq<char>) -> bool {
    match allowed_collections(space) {
        None => true,
        Some(allowed) => allowed.len() == 0 || allowed.contains(Some(collection)),
    }
}

/// The refusal of a record of a collection that a space does not take.
pub open spec fn collection_refusal(collection: Seq<char>) -> ErrorView {
    ErrorView::BadRequest("collection '"@ + collection + "' is not allowed in this space"@)
}

/// Holds a collection against the list of those that a space takes.
pub fn check_collection_allowed(space: &Space, collection: &str) -> (r: Result<(), AppError>)
    ensures
        match r {
            Ok(_) => collection_allowed(*space, collection@),
            Err(e) => !collection_allowed(*space, collection@) && e@ == collection_refusal(
                collection@,
            ),
        },
{
    if let Some(value) = entry(&space.config.extra, "allowedCollections") {
        if let Some(allowed) = as_strings(value) {
            let ghost listed = option_texts(allowed@);
            let mut i: usize = 0;
            while i < allowed.len()
                invariant
                    i <= allowed.len(),
                    listed == option_texts(allowed@),
                    allowed_collections(*space) == Some(listed),
                    forall|j: int| 0 <= j < i ==> #[trigger] listed[j] != Some(collection@),
                decreases allowed.len() - i,
            {
                assert(listed[i as int] == option_text(allowed@[i as int]));
                if let Some(text) = &allowed[i] {
                    if same_text(text.as_str(), collection) {
                        assert(listed.contains(Some(collection@)));
                        return Ok(());
                    }
                }
                i = i + 1;
            }
            if allowed.len() > 0 {
                let mut m = "collection '".to_owned();
                m.append(collection);
                m.append("' is not allowed in this space");
                return Err(AppError::BadRequest(m));
            }
        }
    }
    Ok(())
}

/// Recording writes under one revision, and publishing it.
///
/// The operations are appended before the revision is published. These are separate statements, and
/// whatever interrupts them between two of them leaves at worst a revision that was handed out and
/// never used.
#[derive(Debug)]
pub enum CommitStep {
    /// Have a revision handed out to the repo, which no other writer gets.
    Allocate { space_id: String, author_did: String, ops: Vec<PendingOp> },
    /// Append the entry at `next`.
    Append { space_id: String, rev: String, entries: Vec<OplogEntry>, next: usize },
    /// Set the revision of the space.
    Publish { space_id: String, rev: String },
    /// The writes are recorded, under this revision.
    Done { rev: String },
}

/// Whether an entry records the write at an index of a batch, under a revision.
pub open spec fn records(
    e: EntryView,
    op: OpView,
    space_id: Seq<char>,
    author_did: Seq<char>,
    rev: Seq<char>,
    idx: int,
    created_at: Seq<char>,
) -> bool {
    &&& is_random_id(e.id)
    &&& e == EntryView {
        id: e.id,
        space_id,
        author_did,
        rev,
        idx: idx as i32,
        action: op.action,
        collection: op.collection,
        rkey: op.rkey,
        cid: op.cid,
        prev: op.prev,
        value: None,
        created_at,
    }
}

/// Whether a step is the one behind a revision being handed out: the entries for all writes, in order,
/// under that revision and at one moment, or nothing but publishing where there are no writes.
pub open spec fn is_allocated(
    before: CommitStep,
    after: CommitStep,
    revision: String,
    created_at: Seq<char>,
) -> bool {
    before matches CommitStep::Allocate { space_id, author_did, ops } && if ops.len() == 0 {
        after == (CommitStep::Publish { space_id, rev: revision })
    } else {
        after matches CommitStep::Append { space_id: id, rev, entries, next } && {
            &&& id == space_id
            &&& rev == revision
            &&& next == 0
            &&& entries.len() == ops.len()
            &&& forall|i: int|
                0 <= i < ops.len() ==> records(
                    (#[trigger] entries@[i])@,
                    ops@[i]@,
                    space_id@,
                    author_did@,
                    rev@,
                    i,
                    created_at,
                )
        }
    }
}

impl CommitStep {
    /// The first step for writes that one author made in a space.
    pub fn commit_ops(space: &Space, author_did: &str, ops: Vec<PendingOp>) -> (r: CommitStep)
        ensures
            r matches CommitStep::Allocate { space_id, author_did: author, ops: pending } && space_id
                == space.id && author@ == author_did@ && pending == ops,
    {
        CommitStep::Allocate { space_id: space.id.clone(), author_did: author_did.to_owned(), ops }
    }

    /// Takes the revision that was handed out, and a moment to record the writes at.
    pub fn allocated_at(self, rev: String, created_at: &str) -> (r: CommitStep)
        requires
            self is Allocate,
        ensures
            is_allocated(self, r, rev, created_at@),
    {
        match self {
            CommitStep::Allocate { space_id, author_did, ops } => {
                if ops.len() == 0 {
                    return CommitStep::Publish { space_id, rev };
                }
                let mut entries: Vec<OplogEntry> = Vec::new();
                let mut i: usize = 0;
                while i < ops.len()
                    invariant
                        i <= ops.len(),
                        entries.len() == i,
                        forall|j: int|
                            0 <= j < i ==> records(
                                (#[trigger] entries@[j])@,
                                ops@[j]@,
                                space_id@,
                                author_did@,
                                rev@,
                                j,
                                created_at@,
                            ),
                    decreases ops.len() - i,
                {
                    let op = &ops[i];
                    let e = OplogEntry {
                        id: new_id(),
                        space_id: space_id.clone(),
                        author_did: author_did.clone(),
                        rev: rev.clone(),
                        idx: i as i32,
                        action: op.action,
                        collection: op.collection.clone(),
                        rkey: op.rkey.clone(),
                        cid: op.cid.clone(),
                        prev: op.prev.clone(),
                        value: None,
                        created_at: created_at.to_owned(),
                    };
                    entries.push(e);
                    i = i + 1;
                }
                CommitStep::Append { space_id, rev, entries, next: 0 }
            },
            other => other,
        }
    }

    /// Takes the revision that was handed out. All writes are recorded at this moment.
    pub fn allocated(self, rev: String) -> (r: CommitStep)
        requires
            self is Allocate,
        ensures
            exists|created_at: Seq<char>|
                is_stamp(created_at) && #[trigger] is_allocated(self, r, rev, created_at),
    {
        let created_at = now_rfc3339();
        let r = self.allocated_at(rev, created_at.as_str());
        assert(is_allocated(self, r, rev, created_at@));
        r
    }

    /// The statement that appends the entry whose turn it is.
    pub fn append_statement(&self) -> (r: Statement)
        requires
            self matches CommitStep::Append { entries, next, .. } && next < entries.len(),
        ensures
            self matches CommitStep::Append { entries, next, .. } && r@ == crate::oplog::append_query(
                entries@[next as int]@,
            ),
    {
        match self {
            CommitStep::Append { entries, next, .. } => append_op(&entries[*next]),
            _ => Statement::new(""),
        }
    }

    /// Takes that the entry has been appended.
    pub fn appended(self) -> (r: CommitStep)
        requires
            self matches CommitStep::Append { entries, next, .. } && next < entries.len(),
        ensures
            r == self.after_append(),
    {
        match self {
            CommitStep::Append { space_id, rev, entries, next } => {
                let after: usize = next + 1;
                if after < entries.len() {
                    CommitStep::Append { space_id, rev, entries, next: after }
                } else {
                    CommitStep::Publish { space_id, rev }
                }
            },
            other => other,
        }
    }

    /// The step behind an append: the next entry, or publishing once there is none.
    pub open spec fn after_append(self) -> CommitStep {
        match self {
            CommitStep::Append { space_id, rev, entries, next } => if next + 1 < entries.len() {
                CommitStep::Append { space_id, rev, entries, next: (next + 1) as usize }
            } else {
                CommitStep::Publish { space_id, rev }
            },
            other => other,
        }
    }

    /// Takes that the revision has been published.
    pub fn published(self) -> (r: CommitStep)
        requires
            self is Publish,
        ensures
            r == (CommitStep::Done { rev: self->Publish_rev }),
    {
        match self {
            CommitStep::Publish { rev, .. } => CommitStep::Done { rev },
            other => other,
        }
    }
}

/// What readers see of a repo: its log, and the revision that its space has published.
pub ghost struct Published {
    pub log: Seq<EntryView>,
    pub revision: Option<Seq<char>>,
}

/// What readers see once a step has been carried out.
pub open spec fn carried_out(step: CommitStep, seen: Published) -> Published {
    match step {
        CommitStep::Append { entries, next, .. } => Published {
            log: seen.log.push(entries@[next as int]@),
            ..seen
        },
        CommitStep::Publish { rev, .. } => Published { revision: Some(rev@), ..seen },
        _ => seen,
    }
}

/// What readers see after `n` steps of a commit have been carried out.
pub open spec fn interrupted(step: CommitStep, seen: Published, n: nat) -> Published
    decreases n,
{
    if n == 0 {
        seen
    } else {
        let after = match step {
            CommitStep::Append { .. } => step.after_append(),
            CommitStep::Publish { rev, .. } => CommitStep::Done { rev },
            other => other,
        };
        interrupted(after, carried_out(step, seen), (n - 1) as nat)
    }
}

/// Wherever a commit is interrupted, the log holds the first of its entries, in order and without
/// gaps, and its revision is published only with all of them in the log.
pub proof fn law_commit_appends_before_it_publishes(
    space_id: String,
    rev: String,
    entries: Vec<OplogEntry>,
    next: usize,
    seen: Published,
    n: nat,
)
    requires
        next < entries.len(),
    ensures
        ({
            let step = CommitStep::Append { space_id, rev, entries, next };
            let after = interrupted(step, seen, n);
            let left = entries.len() - next;
            &&& n <= left ==> after == Published {
                log: seen.log + entry_views(entries@.subrange(next as int, next + n)),
                ..seen
            }
            &&& n > left ==> after == Published {
                log: seen.log + entry_views(entries@.skip(next as int)),
                revision: Some(rev@),
            }
        }),
    decreases n,
{
    let step = CommitStep::Append { space_id, rev, entries, next };
    let left = (entries.len() - next) as nat;
    if n == 0 {
        assert(seen.log + entry_views(entries@.subrange(next as int, next as int)) =~= seen.log);
    } else {
        let one = carried_out(step, seen);
        let m = (n - 1) as nat;
        if next + 1 < entries.len() {
            law_commit_appends_before_it_publishes(
                space_id,
                rev,
                entries,
                (next + 1) as usize,
                one,
                m,
            );
            if n <= left {
                assert(one.log + entry_views(entries@.subrange(next + 1, next + 1 + m)) =~= seen.log
                    + entry_views(entries@.subrange(next as int, next + n)));
            } else {
                assert(one.log + entry_views(entries@.skip(next + 1)) =~= seen.log + entry_views(
                    entries@.skip(next as int),
                ));
            }
        } else {
            let publish = CommitStep::Publish { space_id, rev };
            assert(step.after_append() == publish);
            assert(one.log =~= seen.log + entry_views(entries@.skip(next as int)));
            assert(entries@.subrange(next as int, next + 1) =~= entries@.skip(next as int));
            lemma_published_stays(space_id, rev, one, m);
        }
    }
}

proof fn lemma_published_stays(space_id: String, rev: String, seen: Published, n: nat)
    ensures
        interrupted(CommitStep::Publish { space_id, rev }, seen, n) == (if n == 0 {
            seen
        } else {
            Published { revision: Some(rev@), ..seen }
        }),
{
    if n > 0 {
        let done = CommitStep::Done { rev };
        lemma_done_stays(done, Published { revision: Some(rev@), ..seen }, (n - 1) as nat);
    }
}

proof fn lemma_done_stays(done: CommitStep, seen: Published, n: nat)
    requires
        done is Done,
    ensures
        interrupted(done, seen, n) == seen,
    decreases n,
{
    if n > 0 {
        lemma_done_stays(done, seen, (n - 1) as nat);
    }
}

/// A put is recorded as what it did: as a create, with nothing before it, where there was no record,
/// and as an update, linked to what it replaced, where there was one.
pub proof fn law_put_is_recorded_as_what_it_did(
    collection: Seq<char>,
    rkey: Seq<char>,
    cid: Seq<char>,
    prev: Option<Seq<char>>,
)
    ensures
        put_op(collection, rkey, cid, None) == create_op(collection, rkey, cid),
        put_op(collection, rkey, cid, prev).action == OplogAction::Update <==> prev is Some,
        put_op(collection, rkey, cid, prev).prev == prev,
        put_op(collection, rkey, cid, prev).cid == Some(cid),
{
}

/// A space that names no collections, or an empty list of them, takes every collection.
pub proof fn law_no_list_allows_everything(space: Space, collection: Seq<char>)
    requires
        allowed_collections(space) is None || allowed_collections(space)->0.len() == 0,
    ensures
        collection_allowed(space, collection),
{
}

/// A write is recorded under its own collection and key, as what it was: a create leaves a version and
/// had none before it, a delete leaves none, and a put leaves a version and links to the one before.
pub proof fn law_recordings_say_what_happened(
    collection: Seq<char>,
    rkey: Seq<char>,
    cid: Seq<char>,
    prev: Option<Seq<char>>,
    before: Seq<char>,
)
    ensures
        create_op(collection, rkey, cid) == (OpView {
            action: OplogAction::Create,
            collection,
            rkey,
            cid: Some(cid),
            prev: None,
        }),
        delete_op(collection, rkey, prev) == (OpView {
            action: OplogAction::Delete,
            collection,
            rkey,
            cid: None,
            prev,
        }),
        put_op(collection, rkey, cid, Some(before)) == (OpView {
            action: OplogAction::Update,
            collection,
            rkey,
            cid: Some(cid),
            prev: Some(before),
        }),
        put_op(collection, rkey, cid, None) == (OpView {
            action: OplogAction::Create,
            collection,
            rkey,
            cid: Some(cid),
            prev: None,
        }),
{
}

/// A space that lists collections takes those on its list and no others. One that lists none, or whose
/// settings hold no list under that name, takes all of them. A refusal names the collection.
pub proof fn law_listed_collections_are_taken(
    space: Space,
    collection: Seq<char>,
    list: Seq<Option<Seq<char>>>,
)
    ensures
        !json_entries(space.config.extra).contains_key("allowedCollections"@) ==> collection_allowed(
            space,
            collection,
        ),
        json_entries(space.config.extra).contains_key("allowedCollections"@) && json_strings(
            json_entries(space.config.extra)["allowedCollections"@],
        ) is None ==> collection_allowed(space, collection),
        json_entries(space.config.extra).contains_key("allowedCollections"@) && json_strings(
            json_entries(space.config.extra)["allowedCollections"@],
        ) == Some(list) ==> (collection_allowed(space, collection) <==> list.len() == 0
            || list.contains(Some(collection))),
        collection_refusal(collection) == ErrorView::BadRequest(
            "collection '"@ + collection + "' is not allowed in this space"@,
        ),
{
}

/// Once a revision has been handed out, there is one entry for each write, in order: in the repo of the
/// author, under that revision and at the write's own index, with all that is to be recorded of the
/// write. Without writes, there is nothing but to publish.
pub proof fn law_each_write_gets_its_entry(
    before: CommitStep,
    after: CommitStep,
    revision: String,
    created_at: Seq<char>,
)
    requires
        is_allocated(before, after, revision, created_at),
    ensures
        before matches CommitStep::Allocate { space_id, author_did, ops } && {
            &&& ops.len() == 0 ==> after == (CommitStep::Publish { space_id, rev: revision })
            &&& ops.len() > 0 ==> (after matches CommitStep::Append {
                space_id: id,
                rev,
                entries,
                next,
            } && {
                &&& id == space_id
                &&& rev == revision
                &&& next == 0
                &&& entries.len() == ops.len()
                &&& forall|i: int|
                    0 <= i < ops.len() ==> {
                        let e = #[trigger] entries@[i];
                        let op = ops@[i];
                        &&& is_random_id(e.id@)
                        &&& e.space_id@ == space_id@
                        &&& e.author_did@ == author_did@
                        &&& e.rev@ == revision@
                        &&& i <= i32::MAX ==> e.idx == i
                        &&& e.action == op.action
                        &&& e.collection@ == op.collection@
                        &&& e.rkey@ == op.rkey@
                        &&& option_text(e.cid) == option_text(op.cid)
                        &&& option_text(e.prev) == option_text(op.prev)
                        &&& e.value is None
                        &&& e.created_at@ == created_at
                    }
            })
        },
{
}

/// The entries of a commit are appended one after the other, each once, and the revision is published
/// behind the last.
pub proof fn law_appends_go_on_in_turn(
    space_id: String,
    rev: String,
    entries: Vec<OplogEntry>,
    next: usize,
)
    requires
        next < entries.len(),
    ensures
        ({
            let after = (CommitStep::Append { space_id, rev, entries, next }).after_append();
            &&& next + 1 < entries.len() ==> after == (CommitStep::Append {
                space_id,
                rev,
                entries,
                next: (next + 1) as usize,
            })
            &&& next + 1 == entries.len() ==> after == (CommitStep::Publish { space_id, rev })
        }),
{
}

} // verus!
