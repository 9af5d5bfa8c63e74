//! Writing records: one write, or a batch of them under one revision.

use vstd::prelude::*;
use crate::error::{AppError, ErrorView};
use crate::service::{
    check_collection_allowed, cid_text, collection_allowed, collection_refusal, content_cid,
    create_op, delete_op, put_op, OpView, PendingOp,
};
use crate::text::{option_text, same_text};
use crate::types::{record_uri_text, OplogAction, Space, SpaceRecord};

verus! {

/// One write of a batch.
#[allow(inconsistent_fields)]
#[derive(Debug)]
pub enum WriteOp {
    /// Create a record, under a key of the caller's choice or a fresh one.
    Create { collection: String, rkey: Option<String>, value: serde_json::Value },
    /// Put a record, only over the version that `swap_record` names, where it names one.
    Update {
        collection: String,
        rkey: String,
        value: serde_json::Value,
        swap_record: Option<String>,
    },
    /// Delete a record, only in the version that `swap_record` names, where it names one.
    Delete { collection: String, rkey: String, swap_record: Option<String> },
}

/// What is stored of a record, as far as a write depends on it.
#[derive(Debug)]
pub struct Stored {
    pub cid: String,
    pub author_did: String,
}

/// A stored record by its version and its author.
pub ghost struct StoredView {
    pub cid: Seq<char>,
    pub author_did: Seq<char>,
}

impl View for Stored {
    type V = StoredView;

    open spec fn view(&self) -> StoredView {
        StoredView { cid: self.cid@, author_did: self.author_did@ }
    }
}

/// A record that may be missing, by its view.
pub open spec fn stored_view(found: Option<Stored>) -> Option<StoredView> {
    match found {
        Some(s) => Some(s@),
        None => None,
    }
}

/// The URI of an author's record in a space.
pub open spec fn uri_in(space: Space, did: Seq<char>, collection: Seq<char>, rkey: Seq<char>) -> Seq<char> {
    record_uri_text(space.uri_text(), did, collection, rkey)
}

/// The URI of a record. Records are kept apart by author: a caller can only address its own.
pub fn space_record_uri(space: &Space, did: &str, collection: &str, rkey: &str) -> (r: String)
    ensures
        r@ == uri_in(*space, did@, collection@, rkey@),
{
    let mut s = space.uri();
    s.append("/");
    s.append(did);
    s.append("/");
    s.append(collection);
    s.append("/");
    s.append(rkey);
    s
}

/// Nothing is stored at the URI that a write needs a record at.
pub open spec fn record_missing() -> ErrorView {
    ErrorView::NotFound("Record not found"@)
}

/// The record is not in the version that a write names.
pub open spec fn version_mismatch() -> ErrorView {
    ErrorView::Conflict("Record CID mismatch"@)
}

/// The record is not the caller's to delete.
pub open spec fn not_the_author() -> ErrorView {
    ErrorView::Forbidden("You can only delete your own records"@)
}

impl WriteOp {
    /// The collection that a write goes to.
    pub open spec fn target(self) -> Seq<char> {
        match self {
            WriteOp::Create { collection, .. } => collection@,
            WriteOp::Update { collection, .. } => collection@,
            WriteOp::Delete { collection, .. } => collection@,
        }
    }

    /// The key of the record that a write goes to, where a fresh one may be needed.
    pub open spec fn key(self, fresh: Seq<char>) -> Seq<char> {
        match self {
            WriteOp::Create { rkey, .. } => match rkey {
                Some(k) => k@,
                None => fresh,
            },
            WriteOp::Update { rkey, .. } => rkey@,
            WriteOp::Delete { rkey, .. } => rkey@,
        }
    }

    /// Whether a fresh key is needed.
    pub open spec fn needs_key(self) -> bool {
        self matches WriteOp::Create { rkey, .. } && rkey is None
    }

    /// The version that a write names, where it names one.
    pub open spec fn swap(self) -> Option<Seq<char>> {
        match self {
            WriteOp::Create { .. } => None,
            WriteOp::Update { swap_record, .. } => option_text(swap_record),
            WriteOp::Delete { swap_record, .. } => option_text(swap_record),
        }
    }

    /// The URI that a write goes to.
    pub open spec fn uri(self, space: Space, did: Seq<char>, fresh: Seq<char>) -> Seq<char> {
        uri_in(space, did, self.target(), self.key(fresh))
    }

    /// Whether what is stored at its URI can refuse a write before anything is written.
    pub open spec fn depends_on_stored(self) -> bool {
        self is Delete || (self is Update && self.swap() is Some)
    }
}

/// How a write stands against what is stored before the batch that it belongs to: refused for a
/// collection that the space does not take, a record that is not there, another version than the
/// one that it names, or, where it is a delete, another author.
pub open spec fn checked(
    space: Space,
    did: Seq<char>,
    op: WriteOp,
    found: Option<StoredView>,
) -> Result<(), ErrorView> {
    if !(op is Delete) && !collection_allowed(space, op.target()) {
        Err(collection_refusal(op.target()))
    } else if !op.depends_on_stored() {
        Ok(())
    } else {
        match found {
            None => Err(record_missing()),
            Some(record) => match op.swap() {
                Some(swap) => if record.cid != swap {
                    Err(version_mismatch())
                } else if op is Delete && record.author_did != did {
                    Err(not_the_author())
                } else {
                    Ok(())
                },
                None => if record.author_did != did {
                    Err(not_the_author())
                } else {
                    Ok(())
                },
            },
        }
    }
}

/// The first half of a check: refuses a collection that the space does not take, and gives the URI
/// to read where the stored record matters.
pub fn check_before_reading(space: &Space, did: &str, op: &WriteOp) -> (r: Result<
    Option<String>,
    AppError,
>)
    ensures
        match r {
            Err(e) => forall|found: Option<StoredView>| #[trigger]
                checked(*space, did@, *op, found) == Err::<(), ErrorView>(e@),
            Ok(None) => forall|found: Option<StoredView>| #[trigger]
                checked(*space, did@, *op, found) == Ok::<(), ErrorView>(()),
            Ok(Some(uri)) => {
                &&& op.depends_on_stored()
                &&& op is Delete || collection_allowed(*space, op.target())
                &&& uri@ == op.uri(*space, did@, Seq::empty())
            },
        },
{
    match op {
        WriteOp::Create { collection, .. } => match check_collection_allowed(
            space,
            collection.as_str(),
        ) {
            Ok(_) => Ok(None),
            Err(e) => Err(e),
        },
        WriteOp::Update { collection, rkey, swap_record, .. } => match check_collection_allowed(
            space,
            collection.as_str(),
        ) {
            Ok(_) => match swap_record {
                Some(_) => Ok(
                    Some(space_record_uri(space, did, collection.as_str(), rkey.as_str())),
                ),
                None => Ok(None),
            },
            Err(e) => Err(e),
        },
        WriteOp::Delete { collection, rkey, .. } => Ok(
            Some(space_record_uri(space, did, collection.as_str(), rkey.as_str())),
        ),
    }
}

/// The second half of a check: holds the stored record against the write.
pub fn check_stored(did: &str, op: &WriteOp, found: &Option<Stored>) -> (r: Result<(), AppError>)
    requires
        op.depends_on_stored(),
    ensures
        forall|space: Space|
            op is Delete || collection_allowed(space, op.target()) ==> match r {
                Ok(_) => #[trigger] checked(space, did@, *op, stored_view(*found)) == Ok::<
                    (),
                    ErrorView,
                >(()),
                Err(e) => checked(space, did@, *op, stored_view(*found)) == Err::<(), ErrorView>(
                    e@,
                ),
            },
{
    match op {
        WriteOp::Create { .. } => Ok(()),
        WriteOp::Update { swap_record, .. } => in_version(swap_record, found),
        WriteOp::Delete { swap_record, .. } => match in_version(swap_record, found) {
            Err(e) => Err(e),
            Ok(_) => match found {
                Some(record) if !same_text(record.author_did.as_str(), did) => Err(
                    AppError::forbidden("You can only delete your own records"),
                ),
                _ => Ok(()),
            },
        },
    }
}

/// Holds a record against the version that a write names: the record has to be there, and in that
/// version where the write names one.
fn in_version(swap: &Option<String>, found: &Option<Stored>) -> (r: Result<(), AppError>)
    ensures
        match r {
            Ok(_) => found matches Some(record) && (option_text(*swap) is None || option_text(*swap)
                == Some(record.cid@)),
            Err(e) => match *found {
                None => e@ == record_missing(),
                Some(record) => swap matches Some(s) && record.cid@ != s@ && e@
                    == version_mismatch(),
            },
        },
{
    match found {
        None => Err(AppError::not_found("Record not found")),
        Some(record) => match swap {
            Some(swap) => if same_text(record.cid.as_str(), swap.as_str()) {
                Ok(())
            } else {
                Err(AppError::conflict("Record CID mismatch"))
            },
            None => Ok(()),
        },
    }
}

/// What a write answers its caller with.
#[derive(Debug)]
pub enum WriteResult {
    /// The record is there, in this version.
    Written { uri: String, cid: String },
    /// The record is gone.
    Deleted,
}

/// An answer by its texts.
pub ghost enum ResultView {
    Written { uri: Seq<char>, cid: Seq<char> },
    Deleted,
}

impl View for WriteResult {
    type V = ResultView;

    open spec fn view(&self) -> ResultView {
        match self {
            WriteResult::Written { uri, cid } => ResultView::Written { uri: uri@, cid: cid@ },
            WriteResult::Deleted => ResultView::Deleted,
        }
    }
}

/// One write on its way into the store.
#[derive(Debug)]
pub enum WriteStep {
    /// Insert the record, which must not exist.
    Insert { record: SpaceRecord },
    /// Read which version the record is in, if it exists.
    ReadCurrent { record: SpaceRecord },
    /// Insert the record, or overwrite it.
    Upsert { record: SpaceRecord, prev: Option<String> },
    /// Overwrite the record, in this version only.
    UpsertWithSwap { record: SpaceRecord, swap: String },
    /// Read the record that is to be deleted.
    ReadOwned { uri: String, did: String, collection: String, rkey: String },
    /// Delete the record.
    Delete { uri: String, collection: String, rkey: String, prev: Option<String> },
    /// Delete the record, in this version only.
    DeleteWithSwap { uri: String, collection: String, rkey: String, swap: String },
    /// The write has landed.
    Landed { result: WriteResult, op: PendingOp },
    /// The write has not landed.
    Refused { error: AppError },
}

/// What a landed write comes to: the answer to its caller, and what to record.
pub type Landing = (ResultView, OpView);

/// How a write ends, given the fresh key where it needs one, how reading the stored record went where
/// it is read, and how the store took the write.
pub open spec fn one_write(
    space: Space,
    did: Seq<char>,
    op: WriteOp,
    fresh: Seq<char>,
    read: Result<Option<StoredView>, ErrorView>,
    written: Result<(), ErrorView>,
) -> Result<Landing, ErrorView> {
    match op {
        WriteOp::Create { collection, value, .. } => if !collection_allowed(space, collection@) {
            Err(collection_refusal(collection@))
        } else {
            match written {
                Err(e) => Err(e),
                Ok(_) => Ok(
                    (
                        ResultView::Written {
                            uri: op.uri(space, did, fresh),
                            cid: cid_text(value),
                        },
                        create_op(collection@, op.key(fresh), cid_text(value)),
                    ),
                ),
            }
        },
        WriteOp::Update { collection, rkey, value, .. } => if !collection_allowed(
            space,
            collection@,
        ) {
            Err(collection_refusal(collection@))
        } else {
            match overwritten(op.swap(), read) {
                Err(e) => Err(e),
                Ok(prev) => match written {
                    Err(e) => Err(e),
                    Ok(_) => Ok(
                        (
                            ResultView::Written {
                                uri: op.uri(space, did, fresh),
                                cid: cid_text(value),
                            },
                            put_op(collection@, rkey@, cid_text(value), prev),
                        ),
                    ),
                },
            }
        },
        WriteOp::Delete { collection, rkey, .. } => match removed(did, op.swap(), read) {
            Err(e) => Err(e),
            Ok(prev) => match written {
                Err(e) => Err(e),
                Ok(_) => Ok((ResultView::Deleted, delete_op(collection@, rkey@, Some(prev)))),
            },
        },
    }
}

/// The version that a put replaces: the one that it names, or else the one that is stored.
pub open spec fn overwritten(
    swap: Option<Seq<char>>,
    read: Result<Option<StoredView>, ErrorView>,
) -> Result<Option<Seq<char>>, ErrorView> {
    match swap {
        Some(s) => Ok(Some(s)),
        None => match read {
            Err(e) => Err(e),
            Ok(None) => Ok(None),
            Ok(Some(record)) => Ok(Some(record.cid)),
        },
    }
}

/// The version that a delete removes: the one that it names, or else the one that is stored, if it is
/// there and the caller's own.
pub open spec fn removed(
    did: Seq<char>,
    swap: Option<Seq<char>>,
    read: Result<Option<StoredView>, ErrorView>,
) -> Result<Seq<char>, ErrorView> {
    match swap {
        Some(s) => Ok(s),
        None => match read {
            Err(e) => Err(e),
            Ok(None) => Err(record_missing()),
            Ok(Some(record)) => if record.author_did != did {
                Err(not_the_author())
            } else {
                Ok(record.cid)
            },
        },
    }
}

/// Whether a row is the record that a write makes.
pub open spec fn is_row(
    row: SpaceRecord,
    space: Space,
    did: Seq<char>,
    collection: Seq<char>,
    rkey: Seq<char>,
    value: serde_json::Value,
    indexed_at: Seq<char>,
) -> bool {
    &&& row.uri@ == uri_in(space, did, collection, rkey)
    &&& row.space_id@ == space.id@
    &&& row.author_did@ == did
    &&& row.collection@ == collection
    &&& row.rkey@ == rkey
    &&& row.record == value
    &&& row.cid@ == cid_text(value)
    &&& row.indexed_at@ == indexed_at
}

fn make_row(
    space: &Space,
    did: &str,
    collection: String,
    rkey: String,
    value: serde_json::Value,
    indexed_at: String,
) -> (r: SpaceRecord)
    ensures
        is_row(r, *space, did@, collection@, rkey@, value, indexed_at@),
{
    let cid = content_cid(&value);
    let uri = space_record_uri(space, did, collection.as_str(), rkey.as_str());
    SpaceRecord {
        uri,
        space_id: space.id.clone(),
        author_did: did.to_owned(),
        collection,
        rkey,
        record: value,
        cid,
        indexed_at,
    }
}

/// How a read of a record went, by its view.
pub open spec fn read_view(found: Result<Option<Stored>, AppError>) -> Result<
    Option<StoredView>,
    ErrorView,
> {
    match found {
        Ok(f) => Ok(stored_view(f)),
        Err(e) => Err(e@),
    }
}

/// How a statement went, by its view.
pub open spec fn done_view(r: Result<(), AppError>) -> Result<(), ErrorView> {
    match r {
        Ok(_) => Ok(()),
        Err(e) => Err(e@),
    }
}

impl WriteStep {
    /// Whether this step reads a record.
    pub open spec fn reads(self) -> bool {
        self is ReadCurrent || self is ReadOwned
    }

    /// Whether this step changes a record.
    pub open spec fn changes(self) -> bool {
        self is Insert || self is Upsert || self is UpsertWithSwap || self is Delete || self
            is DeleteWithSwap
    }

    /// Whether this write has come to its end.
    pub open spec fn ended(self) -> bool {
        self is Landed || self is Refused
    }

    /// What this step comes to, given the answers that are still to come.
    pub open spec fn leads_to(
        self,
        read: Result<Option<StoredView>, ErrorView>,
        written: Result<(), ErrorView>,
    ) -> Result<Landing, ErrorView> {
        match self {
            WriteStep::Insert { record } => match written {
                Err(e) => Err(e),
                Ok(_) => Ok(
                    (
                        ResultView::Written { uri: record.uri@, cid: record.cid@ },
                        create_op(record.collection@, record.rkey@, record.cid@),
                    ),
                ),
            },
            WriteStep::ReadCurrent { record } => match overwritten(None, read) {
                Err(e) => Err(e),
                Ok(prev) => put_landing(record, prev, written),
            },
            WriteStep::Upsert { record, prev } => put_landing(record, option_text(prev), written),
            WriteStep::UpsertWithSwap { record, swap } => put_landing(record, Some(swap@), written),
            WriteStep::ReadOwned { did, collection, rkey, .. } => match removed(did@, None, read) {
                Err(e) => Err(e),
                Ok(prev) => delete_landing(collection@, rkey@, Some(prev), written),
            },
            WriteStep::Delete { collection, rkey, prev, .. } => delete_landing(
                collection@,
                rkey@,
                option_text(prev),
                written,
            ),
            WriteStep::DeleteWithSwap { collection, rkey, swap, .. } => delete_landing(
                collection@,
                rkey@,
                Some(swap@),
                written,
            ),
            WriteStep::Landed { result, op } => Ok((result@, op@)),
            WriteStep::Refused { error } => Err(error@),
        }
    }

    /// Whether this step is the end of a write that the store has taken, or not taken.
    pub open spec fn ends(self, before: WriteStep, written: Result<(), ErrorView>) -> bool {
        &&& self.ended()
        &&& forall|read: Result<Option<StoredView>, ErrorView>| #[trigger]
            self.leads_to(read, written) == before.leads_to(read, written)
    }

    /// The first step of a write, with a key for a record that has none yet and the time of writing.
    pub fn apply_one_write_at(
        space: &Space,
        did: &str,
        op: WriteOp,
        fresh: String,
        indexed_at: String,
    ) -> (r: WriteStep)
        ensures
            forall|read: Result<Option<StoredView>, ErrorView>, written: Result<(), ErrorView>|
                #[trigger] r.leads_to(read, written) == one_write(
                    *space,
                    did@,
                    op,
                    fresh@,
                    read,
                    written,
                ),
            begins(r, *space, did@, op, fresh@, indexed_at@),
    {
        match op {
            WriteOp::Create { collection, rkey, value } => {
                if let Err(error) = check_collection_allowed(space, collection.as_str()) {
                    return WriteStep::Refused { error };
                }
                let rkey = match rkey {
                    Some(k) => k,
                    None => fresh,
                };
                WriteStep::Insert {
                    record: make_row(space, did, collection, rkey, value, indexed_at),
                }
            },
            WriteOp::Update { collection, rkey, value, swap_record } => {
                if let Err(error) = check_collection_allowed(space, collection.as_str()) {
                    return WriteStep::Refused { error };
                }
                let record = make_row(space, did, collection, rkey, value, indexed_at);
                match swap_record {
                    Some(swap) => WriteStep::UpsertWithSwap { record, swap },
                    None => WriteStep::ReadCurrent { record },
                }
            },
            WriteOp::Delete { collection, rkey, swap_record } => {
                let uri = space_record_uri(space, did, collection.as_str(), rkey.as_str());
                match swap_record {
                    Some(swap) => WriteStep::DeleteWithSwap { uri, collection, rkey, swap },
                    None => WriteStep::ReadOwned { uri, did: did.to_owned(), collection, rkey },
                }
            },
        }
    }

    /// Takes the stored record, or that it could not be read.
    pub fn read(self, found: Result<Option<Stored>, AppError>) -> (r: WriteStep)
        requires
            self.reads(),
        ensures
            forall|written: Result<(), ErrorView>| #[trigger]
                r.leads_to(read_view(found), written) == self.leads_to(read_view(found), written),
            is_read(self, r, read_view(found)),
    {
        match self {
            WriteStep::ReadCurrent { record } => match found {
                Err(error) => WriteStep::Refused { error },
                Ok(None) => WriteStep::Upsert { record, prev: None },
                Ok(Some(stored)) => WriteStep::Upsert { record, prev: Some(stored.cid) },
            },
            WriteStep::ReadOwned { uri, did, collection, rkey } => match found {
                Err(error) => WriteStep::Refused { error },
                Ok(None) => WriteStep::Refused { error: AppError::not_found("Record not found") },
                Ok(Some(stored)) => if same_text(stored.author_did.as_str(), did.as_str()) {
                    WriteStep::Delete { uri, collection, rkey, prev: Some(stored.cid) }
                } else {
                    WriteStep::Refused {
                        error: AppError::forbidden("You can only delete your own records"),
                    }
                },
            },
            other => other,
        }
    }

    /// Takes how the store took the write.
    pub fn written(self, done: Result<(), AppError>) -> (r: WriteStep)
        requires
            self.changes(),
        ensures
            r is Landed <==> done is Ok,
            r is Refused <==> done is Err,
            r.ends(self, done_view(done)),
    {
        if let Err(error) = done {
            return WriteStep::Refused { error };
        }
        match self {
            WriteStep::Insert { record } => WriteStep::Landed {
                op: PendingOp::create(
                    record.collection.as_str(),
                    record.rkey.as_str(),
                    record.cid.as_str(),
                ),
                result: WriteResult::Written { uri: record.uri, cid: record.cid },
            },
            WriteStep::Upsert { record, prev } => WriteStep::Landed {
                op: PendingOp::put(
                    record.collection.as_str(),
                    record.rkey.as_str(),
                    record.cid.as_str(),
                    prev,
                ),
                result: WriteResult::Written { uri: record.uri, cid: record.cid },
            },
            WriteStep::UpsertWithSwap { record, swap } => WriteStep::Landed {
                op: PendingOp::put(
                    record.collection.as_str(),
                    record.rkey.as_str(),
                    record.cid.as_str(),
                    Some(swap),
                ),
                result: WriteResult::Written { uri: record.uri, cid: record.cid },
            },
            WriteStep::Delete { collection, rkey, prev, .. } => WriteStep::Landed {
                op: PendingOp::delete(collection.as_str(), rkey.as_str(), prev),
                result: WriteResult::Deleted,
            },
            WriteStep::DeleteWithSwap { collection, rkey, swap, .. } => WriteStep::Landed {
                op: PendingOp::delete(collection.as_str(), rkey.as_str(), Some(swap)),
                result: WriteResult::Deleted,
            },
            other => other,
        }
    }
}

/// What a put comes to.
pub open spec fn put_landing(
    record: SpaceRecord,
    prev: Option<Seq<char>>,
    written: Result<(), ErrorView>,
) -> Result<Landing, ErrorView> {
    match written {
        Err(e) => Err(e),
        Ok(_) => Ok(
            (
                ResultView::Written { uri: record.uri@, cid: record.cid@ },
                put_op(record.collection@, record.rkey@, record.cid@, prev),
            ),
        ),
    }
}

/// What a delete comes to.
pub open spec fn delete_landing(
    collection: Seq<char>,
    rkey: Seq<char>,
    prev: Option<Seq<char>>,
    written: Result<(), ErrorView>,
) -> Result<Landing, ErrorView> {
    match written {
        Err(e) => Err(e),
        Ok(_) => Ok((ResultView::Deleted, delete_op(collection, rkey, prev))),
    }
}

/// Whether a step is the one behind reading a record: what was to be written or deleted still is, at
/// the same place, unless what was read forbids it.
pub open spec fn is_read(
    before: WriteStep,
    after: WriteStep,
    read: Result<Option<StoredView>, ErrorView>,
) -> bool {
    match before {
        WriteStep::ReadCurrent { record: row } => match overwritten(None, read) {
            Err(e) => after matches WriteStep::Refused { error } && error@ == e,
            Ok(p) => after matches WriteStep::Upsert { record, prev } && record == row
                && option_text(prev) == p,
        },
        WriteStep::ReadOwned { uri: u, did, collection: c, rkey: k } => match removed(
            did@,
            None,
            read,
        ) {
            Err(e) => after matches WriteStep::Refused { error } && error@ == e,
            Ok(p) => after matches WriteStep::Delete { uri, collection, rkey, prev } && uri == u
                && collection == c && rkey == k && option_text(prev) == Some(p),
        },
        _ => false,
    }
}

/// The step that a write begins with, and what it hands to the store.
pub open spec fn begins(
    step: WriteStep,
    space: Space,
    did: Seq<char>,
    op: WriteOp,
    fresh: Seq<char>,
    indexed_at: Seq<char>,
) -> bool {
    match op {
        WriteOp::Create { collection, value, .. } => if collection_allowed(space, collection@) {
            step matches WriteStep::Insert { record } && is_row(
                record,
                space,
                did,
                collection@,
                op.key(fresh),
                value,
                indexed_at,
            )
        } else {
            step is Refused
        },
        WriteOp::Update { collection, rkey, value, swap_record } => if !collection_allowed(
            space,
            collection@,
        ) {
            step is Refused
        } else {
            match swap_record {
                Some(s) => step matches WriteStep::UpsertWithSwap { record, swap } && swap == s
                    && is_row(record, space, did, collection@, rkey@, value, indexed_at),
                None => step matches WriteStep::ReadCurrent { record } && is_row(
                    record,
                    space,
                    did,
                    collection@,
                    rkey@,
                    value,
                    indexed_at,
                ),
            }
        },
        WriteOp::Delete { collection, rkey, swap_record } => match swap_record {
            Some(s) => step matches WriteStep::DeleteWithSwap { uri, swap, .. } && swap == s && uri@
                == uri_in(space, did, collection@, rkey@),
            None => step matches WriteStep::ReadOwned { uri, .. } && uri@ == uri_in(
                space,
                did,
                collection@,
                rkey@,
            ),
        },
    }
}

/// A write that passes its check lands, where the store is still as it was then and takes it.
pub proof fn law_checked_write_lands(
    space: Space,
    did: Seq<char>,
    op: WriteOp,
    fresh: Seq<char>,
    found: Option<StoredView>,
)
    requires
        checked(space, did, op, found) is Ok,
    ensures
        one_write(
            space,
            did,
            op,
            fresh,
            Ok::<Option<StoredView>, ErrorView>(found),
            Ok::<(), ErrorView>(()),
        ) is Ok,
{
}

/// Deletes are never held up by the collections that a space takes: two spaces at one address that
/// differ in that treat a delete alike.
pub proof fn law_deletes_ignore_the_allowed_collections(
    space: Space,
    stricter: Space,
    did: Seq<char>,
    op: WriteOp,
    fresh: Seq<char>,
    found: Option<StoredView>,
    read: Result<Option<StoredView>, ErrorView>,
    written: Result<(), ErrorView>,
)
    requires
        op is Delete,
        space.uri_text() == stricter.uri_text(),
    ensures
        checked(space, did, op, found) == checked(stricter, did, op, found),
        one_write(space, did, op, fresh, read, written) == one_write(
            stricter,
            did,
            op,
            fresh,
            read,
            written,
        ),
{
}

/// A delete passes its check only for a record that is there and is the caller's own, whether or not it
/// names a version.
pub proof fn law_only_own_records_are_deleted(
    space: Space,
    did: Seq<char>,
    op: WriteOp,
    found: Option<StoredView>,
)
    requires
        op is Delete,
    ensures
        checked(space, did, op, found) is Ok ==> (found matches Some(record) && record.author_did
            == did),
{
}

/// Creating or putting a record in a collection that the space does not take is refused, whatever
/// is stored.
pub proof fn law_collections_are_kept_out(
    space: Space,
    did: Seq<char>,
    op: WriteOp,
    fresh: Seq<char>,
    found: Option<StoredView>,
    read: Result<Option<StoredView>, ErrorView>,
    written: Result<(), ErrorView>,
)
    requires
        !(op is Delete),
        !collection_allowed(space, op.target()),
    ensures
        checked(space, did, op, found) == Err::<(), ErrorView>(collection_refusal(op.target())),
        one_write(space, did, op, fresh, read, written) == Err::<Landing, ErrorView>(
            collection_refusal(op.target()),
        ),
{
}

/// A write that stores a record answers with that record's own URI and version, and that version is
/// what is recorded of it.
pub proof fn law_answer_names_the_stored_record(
    step: WriteStep,
    record: SpaceRecord,
    read: Result<Option<StoredView>, ErrorView>,
    space: Space,
    did: Seq<char>,
    collection: Seq<char>,
    rkey: Seq<char>,
    value: serde_json::Value,
    indexed_at: Seq<char>,
)
    requires
        step == (WriteStep::Insert { record }) || step == (WriteStep::ReadCurrent { record }) || (
        step matches WriteStep::Upsert { record: row, .. } && row == record) || (step
            matches WriteStep::UpsertWithSwap { record: row, .. } && row == record),
        is_row(record, space, did, collection, rkey, value, indexed_at),
    ensures
        step.leads_to(read, Ok::<(), ErrorView>(())) matches Ok(landing) ==> {
            &&& landing.0 == (ResultView::Written { uri: record.uri@, cid: record.cid@ })
            &&& landing.1.cid == Some(cid_text(record.record))
            &&& landing.1.collection == collection
            &&& landing.1.rkey == rkey
        },
{
}

/// A put over a stored record is recorded as an update that links back to the stored version, and a
/// put where nothing is stored as a create that links back to nothing.
pub proof fn law_puts_link_back(
    space: Space,
    did: Seq<char>,
    op: WriteOp,
    fresh: Seq<char>,
    stored: StoredView,
)
    requires
        op is Update,
        op.swap() is None,
        collection_allowed(space, op.target()),
    ensures
        one_write(
            space,
            did,
            op,
            fresh,
            Ok::<Option<StoredView>, ErrorView>(Some(stored)),
            Ok::<(), ErrorView>(()),
        ) matches Ok(landing) && landing.1.prev == Some(stored.cid) && landing.1.action
            == crate::types::OplogAction::Update,
        one_write(
            space,
            did,
            op,
            fresh,
            Ok::<Option<StoredView>, ErrorView>(None),
            Ok::<(), ErrorView>(()),
        ) matches Ok(landing) && landing.1.prev is None && landing.1.action
            == crate::types::OplogAction::Create,
{
}

/// What is in front of the first slash, and what is behind it, can be told from the whole.
proof fn lemma_split_at_slash(a: Seq<char>, x: Seq<char>, b: Seq<char>, y: Seq<char>)
    requires
        !a.contains('/'),
        !b.contains('/'),
        a + "/"@ + x == b + "/"@ + y,
    ensures
        a == b,
        x == y,
{
    reveal_strlit("/");
    let s = a + "/"@ + x;
    let t = b + "/"@ + y;
    assert(s[a.len() as int] == '/');
    assert(t[b.len() as int] == '/');
    if a.len() < b.len() {
        assert(t[a.len() as int] == b[a.len() as int]);
        assert(b.contains('/'));
    }
    if b.len() < a.len() {
        assert(s[b.len() as int] == a[b.len() as int]);
        assert(a.contains('/'));
    }
    assert(a =~= s.take(a.len() as int));
    assert(b =~= t.take(b.len() as int));
    assert(x =~= s.skip(a.len() as int + 1));
    assert(y =~= t.skip(b.len() as int + 1));
}

/// Records of different authors in a space have different URIs, whatever their collections and keys, so
/// long as authors hold no slash: a caller addresses no record of another author.
pub proof fn law_authors_are_apart(
    space: Space,
    did: Seq<char>,
    collection: Seq<char>,
    rkey: Seq<char>,
    other_did: Seq<char>,
    other_collection: Seq<char>,
    other_rkey: Seq<char>,
)
    requires
        !did.contains('/'),
        !other_did.contains('/'),
        uri_in(space, did, collection, rkey) == uri_in(
            space,
            other_did,
            other_collection,
            other_rkey,
        ),
    ensures
        did == other_did,
        collection + "/"@ + rkey == other_collection + "/"@ + other_rkey,
{
    reveal_strlit("/");
    let u = space.uri_text();
    let x = collection + "/"@ + rkey;
    let y = other_collection + "/"@ + other_rkey;
    let s = uri_in(space, did, collection, rkey);
    assert(s =~= u + "/"@ + (did + "/"@ + x));
    assert(s =~= u + "/"@ + (other_did + "/"@ + y));
    let skip = u.len() + 1;
    assert(s.skip(skip as int) =~= did + "/"@ + x);
    assert(s.skip(skip as int) =~= other_did + "/"@ + y);
    lemma_split_at_slash(did, x, other_did, y);
}

/// Records of different authors, collections or keys in a space have different URIs, so long as
/// neither authors nor collections hold a slash: a caller addresses no record but its own.
pub proof fn law_record_uris_are_apart(
    space: Space,
    did: Seq<char>,
    collection: Seq<char>,
    rkey: Seq<char>,
    other_did: Seq<char>,
    other_collection: Seq<char>,
    other_rkey: Seq<char>,
)
    requires
        !did.contains('/'),
        !other_did.contains('/'),
        !collection.contains('/'),
        !other_collection.contains('/'),
        uri_in(space, did, collection, rkey) == uri_in(
            space,
            other_did,
            other_collection,
            other_rkey,
        ),
    ensures
        did == other_did,
        collection == other_collection,
        rkey == other_rkey,
{
    law_authors_are_apart(
        space,
        did,
        collection,
        rkey,
        other_did,
        other_collection,
        other_rkey,
    );
    lemma_split_at_slash(collection, rkey, other_collection, other_rkey);
}

/// Every delete that lands, with a named version or without one, is answered as a delete and recorded as
/// one, of its own collection and key, with nothing behind it, and linked to the version that it
/// removed: the one that it names, or else the stored one, which is then the caller's own.
pub proof fn law_deletes_are_recorded_as_deletes(
    space: Space,
    did: Seq<char>,
    op: WriteOp,
    fresh: Seq<char>,
    read: Result<Option<StoredView>, ErrorView>,
    written: Result<(), ErrorView>,
)
    requires
        op is Delete,
    ensures
        one_write(space, did, op, fresh, read, written) matches Ok(landing) ==> {
            &&& written is Ok
            &&& landing.0 is Deleted
            &&& landing.1.action is Delete
            &&& landing.1.cid is None
            &&& landing.1.collection == op->Delete_collection@
            &&& landing.1.rkey == op->Delete_rkey@
            &&& op->Delete_swap_record matches Some(swap) ==> landing.1.prev == Some(swap@)
            &&& op->Delete_swap_record is None ==> (read matches Ok(Some(record))
                && landing.1.prev == Some(record.cid) && record.author_did == did)
        },
{
}

/// How a delete ends: where it names a version, as the store takes it; where it names none, it lands for
/// a record that is there and the caller's own, and is refused for any other. What the database has
/// to say against it is handed on.
pub proof fn law_deletes_end_as_the_store_says(
    space: Space,
    did: Seq<char>,
    collection: String,
    rkey: String,
    swap: String,
    fresh: Seq<char>,
    read: Result<Option<StoredView>, ErrorView>,
    stored: StoredView,
    fault: ErrorView,
    written: Result<(), ErrorView>,
)
    ensures
        ({
            let named = WriteOp::Delete { collection, rkey, swap_record: Some(swap) };
            let plain = WriteOp::Delete { collection, rkey, swap_record: None };
            &&& one_write(space, did, named, fresh, read, Ok(())) is Ok
            &&& one_write(space, did, named, fresh, read, Err(fault)) == Err::<Landing, ErrorView>(
                fault,
            )
            &&& one_write(space, did, plain, fresh, Err(fault), written) == Err::<
                Landing,
                ErrorView,
            >(fault)
            &&& one_write(space, did, plain, fresh, Ok(None), written) == Err::<Landing, ErrorView>(
                ErrorView::NotFound("Record not found"@),
            )
            &&& stored.author_did != did ==> one_write(
                space,
                did,
                plain,
                fresh,
                Ok(Some(stored)),
                written,
            ) == Err::<Landing, ErrorView>(
                ErrorView::Forbidden("You can only delete your own records"@),
            )
            &&& stored.author_did == did ==> one_write(
                space,
                did,
                plain,
                fresh,
                Ok(Some(stored)),
                Ok(()),
            ) is Ok && one_write(space, did, plain, fresh, Ok(Some(stored)), Err(fault)) == Err::<
                Landing,
                ErrorView,
            >(fault)
        }),
{
}

/// Every put that lands is answered with the record's own URI and version and recorded under its own
/// collection and key, with that version behind it: as an update of the version that it names, or of
/// the stored one, and as a create where there was none.
pub proof fn law_puts_are_recorded_as_puts(
    space: Space,
    did: Seq<char>,
    op: WriteOp,
    fresh: Seq<char>,
    read: Result<Option<StoredView>, ErrorView>,
    written: Result<(), ErrorView>,
)
    requires
        op is Update,
    ensures
        one_write(space, did, op, fresh, read, written) matches Ok(landing) ==> {
            &&& written is Ok
            &&& landing.0 == (ResultView::Written {
                uri: uri_in(space, did, op->Update_collection@, op->Update_rkey@),
                cid: cid_text(op->Update_value),
            })
            &&& landing.1.collection == op->Update_collection@
            &&& landing.1.rkey == op->Update_rkey@
            &&& landing.1.cid == Some(cid_text(op->Update_value))
            &&& landing.1.action is Update <==> landing.1.prev is Some
            &&& landing.1.action is Create <==> landing.1.prev is None
            &&& op->Update_swap_record matches Some(swap) ==> landing.1.prev == Some(swap@)
            &&& op->Update_swap_record is None ==> read is Ok && match read->Ok_0 {
                Some(record) => landing.1.prev == Some(record.cid),
                None => landing.1.prev is None,
            }
        },
{
}

/// How a put ends in a collection that the space takes: as the store takes it, once the version before
/// it is known. One that names a version needs no reading, and what is stored does not matter to it
/// beyond what the store says.
pub proof fn law_puts_end_as_the_store_says(
    space: Space,
    did: Seq<char>,
    collection: String,
    rkey: String,
    value: serde_json::Value,
    swap: String,
    fresh: Seq<char>,
    read: Result<Option<StoredView>, ErrorView>,
    found: Option<StoredView>,
    fault: ErrorView,
    written: Result<(), ErrorView>,
)
    requires
        collection_allowed(space, collection@),
    ensures
        ({
            let named = WriteOp::Update { collection, rkey, value, swap_record: Some(swap) };
            let plain = WriteOp::Update { collection, rkey, value, swap_record: None };
            &&& one_write(space, did, named, fresh, read, Ok(())) is Ok
            &&& one_write(space, did, named, fresh, read, Err(fault)) == Err::<Landing, ErrorView>(
                fault,
            )
            &&& one_write(space, did, plain, fresh, Ok(found), Ok(())) is Ok
            &&& one_write(space, did, plain, fresh, Ok(found), Err(fault)) == Err::<
                Landing,
                ErrorView,
            >(fault)
            &&& one_write(space, did, plain, fresh, Err(fault), written) == Err::<
                Landing,
                ErrorView,
            >(fault)
        }),
{
}

/// A create in a collection that the space takes ends as the store takes it, whatever is stored. One that
/// lands is answered with the record's own URI and version, and recorded as a create with nothing
/// before it, under the key that was asked for, or a fresh one where none was.
pub proof fn law_creates_are_recorded_as_creates(
    space: Space,
    did: Seq<char>,
    collection: String,
    rkey: String,
    value: serde_json::Value,
    fresh: Seq<char>,
    read: Result<Option<StoredView>, ErrorView>,
    fault: ErrorView,
)
    requires
        collection_allowed(space, collection@),
    ensures
        ({
            let named = WriteOp::Create { collection, rkey: Some(rkey), value };
            let plain = WriteOp::Create { collection, rkey: None, value };
            &&& one_write(space, did, named, fresh, read, Ok(())) == Ok::<Landing, ErrorView>(
                (
                    ResultView::Written {
                        uri: uri_in(space, did, collection@, rkey@),
                        cid: cid_text(value),
                    },
                    OpView {
                        action: OplogAction::Create,
                        collection: collection@,
                        rkey: rkey@,
                        cid: Some(cid_text(value)),
                        prev: None,
                    },
                ),
            )
            &&& one_write(space, did, plain, fresh, read, Ok(())) == Ok::<Landing, ErrorView>(
                (
                    ResultView::Written {
                        uri: uri_in(space, did, collection@, fresh),
                        cid: cid_text(value),
                    },
                    OpView {
                        action: OplogAction::Create,
                        collection: collection@,
                        rkey: fresh,
                        cid: Some(cid_text(value)),
                        prev: None,
                    },
                ),
            )
            &&& one_write(space, did, named, fresh, read, Err(fault)) == Err::<Landing, ErrorView>(
                fault,
            )
            &&& one_write(space, did, plain, fresh, read, Err(fault)) == Err::<Landing, ErrorView>(
                fault,
            )
        }),
{
}

/// How the step of a delete ends, whichever it is: with the record gone and a delete recorded of its
/// collection and key, linked to the version that the step removes.
pub proof fn law_delete_steps_record_deletes(
    uri: String,
    did: String,
    collection: String,
    rkey: String,
    swap: String,
    prev: Option<String>,
    stored: StoredView,
    read: Result<Option<StoredView>, ErrorView>,
)
    ensures
        ({
            let deleted = |prev: Option<Seq<char>>|
                Ok::<Landing, ErrorView>(
                    (
                        ResultView::Deleted,
                        OpView {
                            action: OplogAction::Delete,
                            collection: collection@,
                            rkey: rkey@,
                            cid: None,
                            prev,
                        },
                    ),
                );
            &&& (WriteStep::DeleteWithSwap { uri, collection, rkey, swap }).leads_to(read, Ok(()))
                == deleted(Some(swap@))
            &&& (WriteStep::Delete { uri, collection, rkey, prev }).leads_to(read, Ok(()))
                == deleted(option_text(prev))
            &&& stored.author_did == did@ ==> (WriteStep::ReadOwned { uri, did, collection, rkey }).leads_to(
                Ok(Some(stored)),
                Ok(()),
            ) == deleted(Some(stored.cid))
        }),
{
}

/// How the step of a put or a create ends, whichever it is: with the record's own URI and version, and
/// linked to the version that the step replaces, if it replaces one.
pub proof fn law_put_steps_record_puts(
    record: SpaceRecord,
    swap: String,
    prev: Option<String>,
    found: Option<StoredView>,
    read: Result<Option<StoredView>, ErrorView>,
)
    ensures
        ({
            let put = |action: OplogAction, prev: Option<Seq<char>>|
                Ok::<Landing, ErrorView>(
                    (
                        ResultView::Written { uri: record.uri@, cid: record.cid@ },
                        OpView {
                            action,
                            collection: record.collection@,
                            rkey: record.rkey@,
                            cid: Some(record.cid@),
                            prev,
                        },
                    ),
                );
            &&& (WriteStep::Insert { record }).leads_to(read, Ok(())) == put(
                OplogAction::Create,
                None,
            )
            &&& (WriteStep::UpsertWithSwap { record, swap }).leads_to(read, Ok(())) == put(
                OplogAction::Update,
                Some(swap@),
            )
            &&& (WriteStep::Upsert { record, prev }).leads_to(read, Ok(())) == (match prev {
                Some(p) => put(OplogAction::Update, Some(p@)),
                None => put(OplogAction::Create, None),
            })
            &&& (WriteStep::ReadCurrent { record }).leads_to(Ok(found), Ok(())) == (match found {
                Some(s) => put(OplogAction::Update, Some(s.cid)),
                None => put(OplogAction::Create, None),
            })
        }),
{
}

/// What passes its check: every create, and every put that names no version, in a collection that the
/// space takes; a put over the version that it names, whoever wrote it; and a delete of a record of
/// the caller's own, in the version that it names, where it names one.
pub proof fn law_what_passes_its_check(
    space: Space,
    did: Seq<char>,
    collection: String,
    rkey: Option<String>,
    key: String,
    value: serde_json::Value,
    swap: String,
    found: Option<StoredView>,
    author_did: Seq<char>,
    cid: Seq<char>,
)
    ensures
        collection_allowed(space, collection@) ==> {
            &&& checked(space, did, WriteOp::Create { collection, rkey, value }, found) is Ok
            &&& checked(
                space,
                did,
                WriteOp::Update { collection, rkey: key, value, swap_record: None },
                found,
            ) is Ok
            &&& checked(
                space,
                did,
                WriteOp::Update { collection, rkey: key, value, swap_record: Some(swap) },
                Some(StoredView { cid: swap@, author_did }),
            ) is Ok
        },
        checked(
            space,
            did,
            WriteOp::Delete { collection, rkey: key, swap_record: None },
            Some(StoredView { cid, author_did: did }),
        ) is Ok,
        checked(
            space,
            did,
            WriteOp::Delete { collection, rkey: key, swap_record: Some(swap) },
            Some(StoredView { cid: swap@, author_did: did }),
        ) is Ok,
{
}

/// What does not pass its check, and why: a delete, or a put that names a version, where there is no
/// record; either of them where the record is in another version than the one that they name; and a
/// delete of a record that someone else wrote.
pub proof fn law_what_is_refused_by_its_check(
    space: Space,
    did: Seq<char>,
    collection: String,
    key: String,
    value: serde_json::Value,
    swap_record: Option<String>,
    swap: String,
    stored: StoredView,
)
    ensures
        ({
            let put = WriteOp::Update { collection, rkey: key, value, swap_record: Some(swap) };
            let delete = WriteOp::Delete { collection, rkey: key, swap_record };
            let missing = Err::<(), ErrorView>(ErrorView::NotFound("Record not found"@));
            let mismatch = Err::<(), ErrorView>(ErrorView::Conflict("Record CID mismatch"@));
            &&& checked(space, did, delete, None) == missing
            &&& collection_allowed(space, collection@) ==> checked(space, did, put, None) == missing
            &&& collection_allowed(space, collection@) && stored.cid != swap@ ==> checked(
                space,
                did,
                put,
                Some(stored),
            ) == mismatch
            &&& swap_record is Some && stored.cid != swap_record->0@ ==> checked(
                space,
                did,
                delete,
                Some(stored),
            ) == mismatch
            &&& (swap_record is None || stored.cid == swap_record->0@) && stored.author_did != did
                ==> checked(space, did, delete, Some(stored)) == Err::<(), ErrorView>(
                ErrorView::Forbidden("You can only delete your own records"@),
            )
        }),
{
}

/// A record that a write makes is the author's own, where the write puts it, with the value that it
/// brings and the version that follows from the value.
pub proof fn law_row_is_the_written_record(
    row: SpaceRecord,
    space: Space,
    did: Seq<char>,
    collection: Seq<char>,
    rkey: Seq<char>,
    value: serde_json::Value,
    indexed_at: Seq<char>,
)
    requires
        is_row(row, space, did, collection, rkey, value, indexed_at),
    ensures
        row.uri@ == "at://"@ + space.did@ + "/space/"@ + space.type_nsid@ + "/"@ + space.skey@ + "/"@
            + did + "/"@ + collection + "/"@ + rkey,
        row.space_id@ == space.id@,
        row.author_did@ == did,
        row.collection@ == collection,
        row.rkey@ == rkey,
        row.record == value,
        row.cid@ == cid_text(value),
        row.indexed_at@ == indexed_at,
{
}

/// What a write hands to the store is what was asked of it: the author's own record with the value that
/// was brought, guarded by the version that it names, where it names one. A delete goes to the
/// author's own record, and reads it first where it names no version.
pub proof fn law_writes_begin_as_asked(
    step: WriteStep,
    space: Space,
    did: Seq<char>,
    op: WriteOp,
    fresh: Seq<char>,
    indexed_at: Seq<char>,
)
    requires
        begins(step, space, did, op, fresh, indexed_at),
        op is Delete || collection_allowed(space, op.target()),
    ensures
        match op {
            WriteOp::Create { collection, rkey, value } => step matches WriteStep::Insert { record }
                && record.uri@ == uri_in(
                space,
                did,
                collection@,
                match rkey {
                    Some(k) => k@,
                    None => fresh,
                },
            ) && record.author_did@ == did && record.record == value,
            WriteOp::Update { collection, rkey, value, swap_record: Some(s) } => step
                matches WriteStep::UpsertWithSwap { record, swap } && swap == s && record.uri@
                == uri_in(space, did, collection@, rkey@) && record.author_did@ == did
                && record.record == value,
            WriteOp::Update { collection, rkey, value, swap_record: None } => step
                matches WriteStep::ReadCurrent { record } && record.uri@ == uri_in(
                space,
                did,
                collection@,
                rkey@,
            ) && record.author_did@ == did && record.record == value,
            WriteOp::Delete { collection, rkey, swap_record: Some(s) } => step
                matches WriteStep::DeleteWithSwap { uri, swap, .. } && swap == s && uri@ == uri_in(
                space,
                did,
                collection@,
                rkey@,
            ),
            WriteOp::Delete { collection, rkey, swap_record: None } => step
                matches WriteStep::ReadOwned { uri, .. } && uri@ == uri_in(
                space,
                did,
                collection@,
                rkey@,
            ),
        },
{
}

/// Once the stored record has been read, the same record is written, or deleted, in the same place, and
/// linked to the version that was read. Where the record could not be read, or is not there to be
/// deleted, or is another's, nothing is changed.
pub proof fn law_reading_changes_nothing_but_the_link(
    before: WriteStep,
    after: WriteStep,
    read: Result<Option<StoredView>, ErrorView>,
)
    requires
        is_read(before, after, read),
    ensures
        before.reads(),
        before matches WriteStep::ReadCurrent { record: row } ==> match read {
            Err(e) => after matches WriteStep::Refused { error } && error@ == e,
            Ok(None) => after matches WriteStep::Upsert { record, prev } && record == row && prev
                is None,
            Ok(Some(stored)) => after matches WriteStep::Upsert { record, prev } && record == row
                && option_text(prev) == Some(stored.cid),
        },
        before matches WriteStep::ReadOwned { uri: u, did, collection: c, rkey: k } ==> match read {
            Err(e) => after matches WriteStep::Refused { error } && error@ == e,
            Ok(None) => after matches WriteStep::Refused { error } && error@ == ErrorView::NotFound(
                "Record not found"@,
            ),
            Ok(Some(stored)) => if stored.author_did == did@ {
                after matches WriteStep::Delete { uri, collection, rkey, prev } && uri == u
                    && collection == c && rkey == k && option_text(prev) == Some(stored.cid)
            } else {
                after matches WriteStep::Refused { error } && error@ == ErrorView::Forbidden(
                    "You can only delete your own records"@,
                )
            },
        },
{
}

/// What a write waits for is one thing at a time: the stored record, the store taking its change, or
/// nothing, once it has landed or is refused.
pub proof fn law_steps_wait_for_one_thing(step: WriteStep)
    ensures
        step.reads() <==> step is ReadCurrent || step is ReadOwned,
        step.ended() <==> step is Landed || step is Refused,
        step.changes() <==> !step.reads() && !step.ended(),
{
}

/// A write needs a fresh key just where it creates a record for which none was asked; and what is stored
/// can refuse it beforehand just where it deletes, or puts over a version that it names.
pub proof fn law_what_a_write_depends_on(op: WriteOp)
    ensures
        op.needs_key() <==> op is Create && op->Create_rkey is None,
        op.depends_on_stored() <==> op is Delete || (op is Update && op->Update_swap_record is Some),
        !op.needs_key() ==> forall|x: Seq<char>, y: Seq<char>| #[trigger]
            op.key(x) == #[trigger] op.key(y),
{
}

/// Answers are taken as they come: a record by its version and its author, none as none, and a failure as
/// what it says.
pub proof fn law_answers_are_taken_as_they_come(stored: Stored, error: AppError)
    ensures
        stored_view(Some(stored)) == Some(
            StoredView { cid: stored.cid@, author_did: stored.author_did@ },
        ),
        stored_view(None) is None,
        read_view(Ok::<Option<Stored>, AppError>(Some(stored))) == Ok::<
            Option<StoredView>,
            ErrorView,
        >(Some(StoredView { cid: stored.cid@, author_did: stored.author_did@ })),
        read_view(Ok::<Option<Stored>, AppError>(None)) == Ok::<Option<StoredView>, ErrorView>(None),
        read_view(Err::<Option<Stored>, AppError>(error)) == Err::<Option<StoredView>, ErrorView>(
            error@,
        ),
        done_view(Ok::<(), AppError>(())) == Ok::<(), ErrorView>(()),
        done_view(Err::<(), AppError>(error)) == Err::<(), ErrorView>(error@),
{
}

} // verus!
