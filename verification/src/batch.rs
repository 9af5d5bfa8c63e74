//! Batches of writes: all under one revision, and all in the log before the answer goes out.
//!
//! A batch is first held against what is stored, and refused whole where it cannot land. A batch that
//! meets another writer on its way may still be refused in the middle. What has landed by then is
//! recorded all the same: readers follow the log, and what is not in it is invisible to them.

use std::collections::VecDeque;
use vstd::prelude::*;
use crate::clock::{is_stamp, now_rfc3339};
use crate::error::{AppError, ErrorView};
use crate::oplog::{entry_position, is_log, law_log_stays_in_order, law_next_revision_is_visible};
use crate::service::{
    interrupted, is_allocated, law_commit_appends_before_it_publishes, op_views, CommitStep, OpView,
    PendingOp, Published,
};
use crate::text::{option_text, same_text};
use crate::tid::{can_be_followed, following, generate_tid, is_minted};
use crate::types::{entry_views, EntryView, OplogEntry, Space};
use crate::writes::{
    begins, check_before_reading, check_stored, checked, done_view, is_read, one_write, read_view,
    stored_view, Landing, ResultView, Stored, StoredView, WriteOp, WriteResult, WriteStep,
};

verus! {

/// The writes of one author in a space: those that have landed, and those that are still to come.
#[derive(Debug)]
pub struct Batch {
    pub space: Space,
    pub did: String,
    pub pending: VecDeque<WriteOp>,
    pub results: Vec<WriteResult>,
    pub ops: Vec<PendingOp>,
}

/// A batch on its way.
#[derive(Debug)]
pub enum BatchStep {
    /// Read the record at this URI, to hold it against the write at `next`. Nothing is written yet.
    Check { batch: Batch, next: usize, uri: String },
    /// Draw a key and the time for the next write.
    Prepare { batch: Batch, op: WriteOp },
    /// Carry out the next write.
    Write { batch: Batch, write: WriteStep },
    /// Record what has landed.
    Commit { results: Vec<WriteResult>, failure: Option<AppError>, commit: CommitStep },
    /// Every write has landed. There is a revision where there was a write.
    Done { results: Vec<WriteResult>, rev: Option<String> },
    /// The batch is refused.
    Refused { error: AppError },
}

/// A list of answers, each by its view.
pub open spec fn result_views(results: Seq<WriteResult>) -> Seq<ResultView> {
    results.map_values(|r: WriteResult| r@)
}

/// Every answer that a batch can meet, those of a write by its position in the batch. Those that it
/// does not ask for do not matter.
pub ghost struct Answers {
    /// What is stored when a write is checked.
    pub checked: spec_fn(int) -> Option<StoredView>,
    /// A key that nothing has.
    pub fresh: spec_fn(int) -> Seq<char>,
    /// What is stored when a write is carried out.
    pub read: spec_fn(int) -> Result<Option<StoredView>, ErrorView>,
    /// How the store takes a write.
    pub written: spec_fn(int) -> Result<(), ErrorView>,
    /// The revision that is handed out.
    pub rev: Seq<char>,
}

/// What is left of a batch in the end: what is to be recorded, what its writes answer, and the
/// refusal that stopped it, if one did.
pub ghost struct Run {
    pub ops: Seq<OpView>,
    pub results: Seq<ResultView>,
    pub failure: Option<ErrorView>,
}

/// What the caller is told: the answers of all writes, and the revision.
pub type Reply = (Seq<ResultView>, Option<Seq<char>>);

/// How a batch ends: what is still to be recorded of it, and what the caller is told.
pub ghost struct Outcome {
    pub recorded: Seq<OpView>,
    pub reply: Result<Reply, ErrorView>,
}

/// Whether the revision that a batch expects is the one that the space is at. A space without one
/// is at the empty revision.
pub open spec fn swap_commit_holds(current: Option<Seq<char>>, expected: Option<Seq<char>>) -> bool {
    match expected {
        None => true,
        Some(e) => match current {
            Some(c) => c == e,
            None => e.len() == 0,
        },
    }
}

/// The first refusal that the writes from a position on meet when they are held against what is
/// stored.
pub open spec fn prechecked(
    space: Space,
    did: Seq<char>,
    writes: Seq<WriteOp>,
    from: int,
    a: Answers,
) -> Result<(), ErrorView>
    decreases writes.len() - from,
{
    if from < 0 || from >= writes.len() {
        Ok(())
    } else {
        match checked(space, did, writes[from], (a.checked)(from)) {
            Err(e) => Err(e),
            Ok(_) => prechecked(space, did, writes, from + 1, a),
        }
    }
}

/// How a write at a position of a batch ends.
pub open spec fn write_at(space: Space, did: Seq<char>, op: WriteOp, at: int, a: Answers) -> Result<
    Landing,
    ErrorView,
> {
    one_write(space, did, op, (a.fresh)(at), (a.read)(at), (a.written)(at))
}

/// What comes of writes that are carried out in order, the first of them at a position of a batch,
/// until one of them is refused.
pub open spec fn run(space: Space, did: Seq<char>, writes: Seq<WriteOp>, at: int, a: Answers) -> Run
    decreases writes.len(),
{
    if writes.len() == 0 {
        Run { ops: Seq::empty(), results: Seq::empty(), failure: None }
    } else {
        match write_at(space, did, writes[0], at, a) {
            Err(e) => Run { ops: Seq::empty(), results: Seq::empty(), failure: Some(e) },
            Ok(landing) => landed(landing, run(space, did, writes.skip(1), at + 1, a)),
        }
    }
}

/// A run with one more landed write in front.
pub open spec fn landed(landing: Landing, rest: Run) -> Run {
    Run {
        ops: seq![landing.1] + rest.ops,
        results: seq![landing.0] + rest.results,
        failure: rest.failure,
    }
}

/// A run behind writes that have landed before.
pub open spec fn behind(batch: Batch, rest: Run) -> Run {
    Run {
        ops: op_views(batch.ops@) + rest.ops,
        results: result_views(batch.results@) + rest.results,
        failure: rest.failure,
    }
}

/// What the caller is told: the refusal, if there was one, or else the answers.
pub open spec fn reply(
    results: Seq<ResultView>,
    failure: Option<ErrorView>,
    rev: Option<Seq<char>>,
) -> Result<Reply, ErrorView> {
    match failure {
        Some(e) => Err(e),
        None => Ok((results, rev)),
    }
}

/// How a batch ends that came to this. What has landed is recorded whether or not the batch was
/// stopped, and nothing gets no revision.
pub open spec fn settled(r: Run, a: Answers) -> Outcome {
    Outcome {
        recorded: r.ops,
        reply: reply(
            r.results,
            r.failure,
            if r.ops.len() == 0 {
                None
            } else {
                Some(a.rev)
            },
        ),
    }
}

/// A refusal before anything was written.
pub open spec fn refused(e: ErrorView) -> Outcome {
    Outcome { recorded: Seq::empty(), reply: Err(e) }
}

/// How a batch ends.
pub open spec fn applied(
    space: Space,
    did: Seq<char>,
    swap_commit: Option<Seq<char>>,
    writes: Seq<WriteOp>,
    a: Answers,
) -> Outcome {
    if !swap_commit_holds(option_text(space.revision), swap_commit) {
        refused(ErrorView::Conflict("swapCommit mismatch"@))
    } else {
        match prechecked(space, did, writes, 0, a) {
            Err(e) => refused(e),
            Ok(_) => settled(run(space, did, writes, 0, a), a),
        }
    }
}

/// The write that an entry of the log records.
pub open spec fn recorded_op(e: EntryView) -> OpView {
    OpView { action: e.action, collection: e.collection, rkey: e.rkey, cid: e.cid, prev: e.prev }
}

/// The writes that entries of the log record.
pub open spec fn recorded_ops(entries: Seq<OplogEntry>) -> Seq<OpView> {
    entries.map_values(|e: OplogEntry| recorded_op(e@))
}

impl Batch {
    /// As many answers as recorded writes.
    pub open spec fn wf(self) -> bool {
        self.ops.len() == self.results.len()
    }
}

impl BatchStep {
    /// A batch is in order while it stands before something to do, or at its end.
    pub open spec fn wf(self) -> bool {
        match self {
            BatchStep::Check { batch, next, uri } => {
                &&& batch.wf()
                &&& batch.ops.len() == 0
                &&& next < batch.pending.len()
                &&& batch.pending@[next as int].depends_on_stored()
                &&& batch.pending@[next as int] is Delete
                    || crate::service::collection_allowed(
                    batch.space,
                    batch.pending@[next as int].target(),
                )
                &&& uri@ == batch.pending@[next as int].uri(batch.space, batch.did@, Seq::empty())
            },
            BatchStep::Prepare { batch, .. } => batch.wf(),
            BatchStep::Write { batch, write } => batch.wf() && !write.ended(),
            BatchStep::Commit { commit, .. } => match commit {
                CommitStep::Allocate { ops, .. } => ops.len() > 0,
                CommitStep::Append { entries, next, .. } => next < entries.len(),
                CommitStep::Publish { .. } => true,
                CommitStep::Done { .. } => false,
            },
            _ => true,
        }
    }

    /// What this step comes to, given the answers that are still to come.
    pub open spec fn leads_to(self, a: Answers) -> Outcome {
        match self {
            BatchStep::Check { batch, next, .. } => match prechecked(
                batch.space,
                batch.did@,
                batch.pending@,
                next as int,
                a,
            ) {
                Err(e) => refused(e),
                Ok(_) => batch.settles(a),
            },
            BatchStep::Prepare { batch, op } => batch.settles_after(
                write_at(batch.space, batch.did@, op, batch.ops.len() as int, a),
                a,
            ),
            BatchStep::Write { batch, write } => batch.settles_after(
                write.leads_to(
                    (a.read)(batch.ops.len() as int),
                    (a.written)(batch.ops.len() as int),
                ),
                a,
            ),
            BatchStep::Commit { results, failure, commit } => Outcome {
                recorded: match commit {
                    CommitStep::Allocate { ops, .. } => op_views(ops@),
                    CommitStep::Append { entries, next, .. } => recorded_ops(
                        entries@.skip(next as int),
                    ),
                    _ => Seq::empty(),
                },
                reply: reply(
                    result_views(results@),
                    match failure {
                        Some(e) => Some(e@),
                        None => None,
                    },
                    Some(
                        match commit {
                            CommitStep::Allocate { .. } => a.rev,
                            CommitStep::Append { rev, .. } => rev@,
                            CommitStep::Publish { rev, .. } => rev@,
                            CommitStep::Done { rev } => rev@,
                        },
                    ),
                ),
            },
            BatchStep::Done { results, rev } => Outcome {
                recorded: Seq::empty(),
                reply: Ok((result_views(results@), option_text(rev))),
            },
            BatchStep::Refused { error } => refused(error@),
        }
    }
}

impl Batch {
    /// Whether this batch has these writes before it, and nothing behind it.
    pub open spec fn is_new(self, space: Space, did: String, writes: Seq<WriteOp>) -> bool {
        &&& self.space == space
        &&& self.did == did
        &&& self.pending@ == writes
        &&& self.ops@.len() == 0
        &&& self.results@.len() == 0
    }

    fn new(space: Space, did: String, pending: VecDeque<WriteOp>) -> (r: Batch)
        ensures
            r.is_new(space, did, pending@),
    {
        Batch { space, did, pending, results: Vec::new(), ops: Vec::new() }
    }

    /// How this batch ends, with all its checks behind it.
    pub open spec fn settles(self, a: Answers) -> Outcome {
        settled(
            behind(
                self,
                run(self.space, self.did@, self.pending@, self.ops.len() as int, a),
            ),
            a,
        )
    }

    /// Whether a step is the one behind the last write, or behind the refusal that stopped the batch:
    /// what has landed is to be recorded in the repo of its author, and the rest can wait until then.
    pub open spec fn settles_as(self, stopped: Option<AppError>, r: BatchStep) -> bool {
        if self.ops.len() > 0 {
            match r {
                BatchStep::Commit {
                    results,
                    failure,
                    commit: CommitStep::Allocate { space_id, author_did, ops },
                } => results == self.results && failure == stopped && space_id == self.space.id
                    && author_did@ == self.did@ && ops == self.ops,
                _ => false,
            }
        } else {
            match stopped {
                Some(e) => r == (BatchStep::Refused { error: e }),
                None => r == (BatchStep::Done { results: self.results, rev: None }),
            }
        }
    }

    /// Whether a step is the one that this batch goes on with: its next write, or its end.
    pub open spec fn goes_on_to(self, r: BatchStep) -> bool {
        if self.pending@.len() > 0 {
            match r {
                BatchStep::Prepare { batch, op } => {
                    &&& op == self.pending@[0]
                    &&& batch.pending@ == self.pending@.skip(1)
                    &&& batch.space == self.space
                    &&& batch.did == self.did
                    &&& batch.results == self.results
                    &&& batch.ops == self.ops
                },
                _ => false,
            }
        } else {
            self.settles_as(None, r)
        }
    }

    /// Whether a step is one that this batch can be at while its writes from a position on are held
    /// against what is stored: nothing of it has changed.
    pub open spec fn checks_on_to(self, from: int, r: BatchStep) -> bool {
        match r {
            BatchStep::Check { batch, next, .. } => batch == self && from <= next,
            BatchStep::Refused { .. } => true,
            _ => self.goes_on_to(r),
        }
    }

    /// Whether this batch is another with one more write landed.
    pub open spec fn is_with(self, before: Batch, landing: Landing) -> bool {
        &&& self.space == before.space
        &&& self.did == before.did
        &&& self.pending == before.pending
        &&& op_views(self.ops@) == op_views(before.ops@).push(landing.1)
        &&& result_views(self.results@) == result_views(before.results@).push(landing.0)
    }

    /// Whether a step is the one behind a write that has come this far: the write itself until it has
    /// ended, what the batch goes on with once it has landed, and the end once it is refused.
    pub open spec fn moves_on_to(self, write: WriteStep, r: BatchStep) -> bool {
        match write {
            WriteStep::Landed { result, op } => exists|after: Batch| #[trigger]
                after.is_with(self, (result@, op@)) && after.goes_on_to(r),
            WriteStep::Refused { error } => self.settles_as(Some(error), r),
            _ => r == (BatchStep::Write { batch: self, write }),
        }
    }

    /// How this batch ends when the write that it is at has ended like this.
    pub open spec fn settles_after(self, write: Result<Landing, ErrorView>, a: Answers) -> Outcome {
        match write {
            Err(e) => settled(
                behind(
                    self,
                    Run { ops: Seq::empty(), results: Seq::empty(), failure: Some(e) },
                ),
                a,
            ),
            Ok(landing) => settled(
                behind(
                    self,
                    landed(
                        landing,
                        run(self.space, self.did@, self.pending@, self.ops.len() + 1, a),
                    ),
                ),
                a,
            ),
        }
    }

    /// The step behind the last write, or behind the refusal that stopped the batch.
    fn settle(self, failure: Option<AppError>) -> (r: BatchStep)
        requires
            self.wf(),
        ensures
            r.wf(),
            forall|a: Answers| #[trigger]
                r.leads_to(a) == settled(
                    behind(
                        self,
                        Run {
                            ops: Seq::empty(),
                            results: Seq::empty(),
                            failure: match failure {
                                Some(e) => Some(e@),
                                None => None,
                            },
                        },
                    ),
                    a,
                ),
            self.settles_as(failure, r),
    {
        assert(op_views(self.ops@) + Seq::<OpView>::empty() =~= op_views(self.ops@));
        assert(result_views(self.results@) + Seq::<ResultView>::empty() =~= result_views(
            self.results@,
        ));
        if self.ops.len() == 0 {
            assert(op_views(self.ops@) =~= Seq::<OpView>::empty());
            match failure {
                Some(error) => BatchStep::Refused { error },
                None => BatchStep::Done { results: self.results, rev: None },
            }
        } else {
            let commit = CommitStep::commit_ops(&self.space, self.did.as_str(), self.ops);
            BatchStep::Commit { results: self.results, failure, commit }
        }
    }

    /// The step for the next write, if there is one.
    fn next_write(self) -> (r: BatchStep)
        requires
            self.wf(),
        ensures
            r.wf(),
            self.goes_on_to(r),
            forall|a: Answers| #[trigger] r.leads_to(a) == self.settles(a),
    {
        let mut batch = self;
        match batch.pending.pop_front() {
            Some(op) => {
                assert(batch.pending@ =~= self.pending@.skip(1));
                let r = BatchStep::Prepare { batch, op };
                assert forall|a: Answers| #[trigger] r.leads_to(a) == self.settles(a) by {
                    let at = self.ops.len() as int;
                    assert(run(self.space, self.did@, self.pending@, at, a) == (match write_at(
                        self.space,
                        self.did@,
                        op,
                        at,
                        a,
                    ) {
                        Err(e) => Run {
                            ops: Seq::empty(),
                            results: Seq::empty(),
                            failure: Some(e),
                        },
                        Ok(landing) => landed(
                            landing,
                            run(self.space, self.did@, self.pending@.skip(1), at + 1, a),
                        ),
                    }));
                }
                r
            },
            None => batch.settle(None),
        }
    }

    /// Holds the writes from a position on against what is stored, up to the first that a record has
    /// to be read for.
    fn check_from(self, from: usize) -> (r: BatchStep)
        requires
            self.wf(),
            self.ops.len() == 0,
            from <= self.pending@.len(),
        ensures
            r.wf(),
            forall|a: Answers| #[trigger]
                r.leads_to(a) == (match prechecked(
                    self.space,
                    self.did@,
                    self.pending@,
                    from as int,
                    a,
                ) {
                    Err(e) => refused(e),
                    Ok(_) => self.settles(a),
                }),
            self.checks_on_to(from as int, r),
    {
        let mut i: usize = from;
        while i < self.pending.len()
            invariant
                self.wf(),
                self.ops.len() == 0,
                from <= i <= self.pending@.len(),
                forall|a: Answers| #[trigger]
                    prechecked(self.space, self.did@, self.pending@, i as int, a) == prechecked(
                        self.space,
                        self.did@,
                        self.pending@,
                        from as int,
                        a,
                    ),
            decreases self.pending@.len() - i,
        {
            match check_before_reading(&self.space, self.did.as_str(), &self.pending[i]) {
                Err(error) => {
                    let r = BatchStep::Refused { error };
                    assert forall|a: Answers| #[trigger] r.leads_to(a) == (match prechecked(
                        self.space,
                        self.did@,
                        self.pending@,
                        from as int,
                        a,
                    ) {
                        Err(e) => refused(e),
                        Ok(_) => self.settles(a),
                    }) by {
                        assert(checked(
                            self.space,
                            self.did@,
                            self.pending@[i as int],
                            (a.checked)(i as int),
                        ) == Err::<(), ErrorView>(error@));
                        assert(prechecked(self.space, self.did@, self.pending@, i as int, a)
                            == Err::<(), ErrorView>(error@));
                    }
                    return r;
                },
                Ok(Some(uri)) => {
                    let r = BatchStep::Check { batch: self, next: i, uri };
                    assert forall|a: Answers| #[trigger] r.leads_to(a) == (match prechecked(
                        self.space,
                        self.did@,
                        self.pending@,
                        from as int,
                        a,
                    ) {
                        Err(e) => refused(e),
                        Ok(_) => self.settles(a),
                    }) by {
                        assert(prechecked(self.space, self.did@, self.pending@, i as int, a)
                            == prechecked(self.space, self.did@, self.pending@, from as int, a));
                    }
                    return r;
                },
                Ok(None) => {
                    assert forall|a: Answers| #[trigger]
                        prechecked(self.space, self.did@, self.pending@, i + 1, a) == prechecked(
                            self.space,
                            self.did@,
                            self.pending@,
                            from as int,
                            a,
                        ) by {
                        assert(checked(
                            self.space,
                            self.did@,
                            self.pending@[i as int],
                            (a.checked)(i as int),
                        ) == Ok::<(), ErrorView>(()));
                        assert(prechecked(self.space, self.did@, self.pending@, i as int, a)
                            == prechecked(self.space, self.did@, self.pending@, i + 1, a));
                    }
                },
            }
            i = i + 1;
        }
        let ghost batch = self;
        let r = self.next_write();
        assert forall|a: Answers| #[trigger] r.leads_to(a) == (match prechecked(
            batch.space,
            batch.did@,
            batch.pending@,
            from as int,
            a,
        ) {
            Err(e) => refused(e),
            Ok(_) => batch.settles(a),
        }) by {
            assert(prechecked(batch.space, batch.did@, batch.pending@, i as int, a) == Ok::<
                (),
                ErrorView,
            >(()));
        }
        r
    }
}

/// Whether a step is the one behind drawing this key and this time.
pub open spec fn prepared_as(
    before: BatchStep,
    after: BatchStep,
    fresh: Seq<char>,
    indexed_at: Seq<char>,
) -> bool {
    &&& after.wf()
    &&& before matches BatchStep::Prepare { batch, op } && {
        &&& forall|a: Answers|
            (a.fresh)(batch.ops.len() as int) == fresh ==> #[trigger] after.leads_to(a)
                == before.leads_to(a)
        &&& exists|write: WriteStep| #[trigger]
            begins(write, batch.space, batch.did@, op, fresh, indexed_at) && batch.moves_on_to(
                write,
                after,
            )
    }
}

impl BatchStep {
    /// The first step for a batch that an author sends to a space.
    pub fn apply_writes(
        space: Space,
        did: String,
        swap_commit: Option<String>,
        writes: VecDeque<WriteOp>,
    ) -> (r: BatchStep)
        ensures
            r.wf(),
            forall|a: Answers| #[trigger]
                r.leads_to(a) == applied(space, did@, option_text(swap_commit), writes@, a),
            if swap_commit_holds(option_text(space.revision), option_text(swap_commit)) {
                exists|batch: Batch| #[trigger]
                    batch.is_new(space, did, writes@) && batch.checks_on_to(0, r)
            } else {
                r is Refused
            },
    {
        let holds = match &swap_commit {
            None => true,
            Some(expected) => match &space.revision {
                Some(current) => same_text(current.as_str(), expected.as_str()),
                None => expected.as_str().unicode_len() == 0,
            },
        };
        if !holds {
            return BatchStep::Refused { error: AppError::conflict("swapCommit mismatch") };
        }
        let batch = Batch::new(space, did, writes);
        let ghost first = batch;
        let r = batch.check_from(0);
        assert(first.is_new(space, did, writes@) && first.checks_on_to(0, r));
        assert forall|a: Answers| #[trigger]
            r.leads_to(a) == applied(space, did@, option_text(swap_commit), writes@, a) by {
            lemma_nothing_in_front(first, run(space, did@, writes@, 0, a));
        }
        r
    }

    /// Whether this step is the first of one write on its own.
    pub open spec fn is_single(self, space: Space, did: String, write: WriteOp) -> bool {
        self matches BatchStep::Prepare { batch, op } && op == write && batch.is_new(
            space,
            did,
            Seq::empty(),
        )
    }

    /// The first step for one write on its own, which is carried out without a check before it.
    fn single(space: Space, did: String, op: WriteOp) -> (r: BatchStep)
        ensures
            r.wf(),
            r.is_single(space, did, op),
            forall|a: Answers| #[trigger]
                r.leads_to(a) == settled(run(space, did@, seq![op], 0, a), a),
    {
        let batch = Batch::new(space, did, VecDeque::new());
        let r = BatchStep::Prepare { batch, op };
        assert forall|a: Answers| #[trigger]
            r.leads_to(a) == settled(run(space, did@, seq![op], 0, a), a) by {
            assert(seq![op].skip(1) =~= batch.pending@);
            assert(seq![op][0] == op);
            lemma_nothing_in_front(batch, run(space, did@, seq![op], 0, a));
        }
        r
    }

    /// The first step for creating a record under a fresh key.
    pub fn create_record(space: Space, did: String, collection: String, record: serde_json::Value) -> (r:
        BatchStep)
        ensures
            r.wf(),
            r.is_single(space, did, WriteOp::Create { collection, rkey: None, value: record }),
            forall|a: Answers| #[trigger]
                r.leads_to(a) == settled(
                    run(
                        space,
                        did@,
                        seq![WriteOp::Create { collection, rkey: None, value: record }],
                        0,
                        a,
                    ),
                    a,
                ),
    {
        BatchStep::single(space, did, WriteOp::Create { collection, rkey: None, value: record })
    }

    /// The first step for putting a record.
    pub fn put_record(
        space: Space,
        did: String,
        collection: String,
        rkey: String,
        record: serde_json::Value,
        swap_record: Option<String>,
    ) -> (r: BatchStep)
        ensures
            r.wf(),
            r.is_single(
                space,
                did,
                WriteOp::Update { collection, rkey, value: record, swap_record },
            ),
            forall|a: Answers| #[trigger]
                r.leads_to(a) == settled(
                    run(
                        space,
                        did@,
                        seq![WriteOp::Update { collection, rkey, value: record, swap_record }],
                        0,
                        a,
                    ),
                    a,
                ),
    {
        BatchStep::single(
            space,
            did,
            WriteOp::Update { collection, rkey, value: record, swap_record },
        )
    }

    /// The first step for deleting a record.
    pub fn delete_record(
        space: Space,
        did: String,
        collection: String,
        rkey: String,
        swap_record: Option<String>,
    ) -> (r: BatchStep)
        ensures
            r.wf(),
            r.is_single(space, did, WriteOp::Delete { collection, rkey, swap_record }),
            forall|a: Answers| #[trigger]
                r.leads_to(a) == settled(
                    run(
                        space,
                        did@,
                        seq![WriteOp::Delete { collection, rkey, swap_record }],
                        0,
                        a,
                    ),
                    a,
                ),
    {
        BatchStep::single(space, did, WriteOp::Delete { collection, rkey, swap_record })
    }

    /// Takes what is stored where a write goes to.
    pub fn checked(self, found: Option<Stored>) -> (r: BatchStep)
        requires
            self.wf(),
            self is Check,
        ensures
            r.wf(),
            forall|a: Answers|
                (a.checked)(self->next as int) == stored_view(found) ==> #[trigger] r.leads_to(a)
                    == self.leads_to(a),
            self matches BatchStep::Check { batch, next, .. } && batch.checks_on_to(next + 1, r),
    {
        match self {
            BatchStep::Check { batch, next, uri } => {
                let ghost before = BatchStep::Check { batch, next, uri };
                let ghost op = batch.pending@[next as int];
                match check_stored(batch.did.as_str(), &batch.pending[next], &found) {
                    Ok(_) => {
                        let ghost b = batch;
                        let r = batch.check_from(next + 1);
                        assert forall|a: Answers|
                            (a.checked)(next as int) == stored_view(found) implies #[trigger]
                        r.leads_to(a) == before.leads_to(a) by {
                            assert(checked(b.space, b.did@, op, (a.checked)(next as int)) == Ok::<
                                (),
                                ErrorView,
                            >(()));
                        }
                        r
                    },
                    Err(error) => {
                        let r = BatchStep::Refused { error };
                        assert forall|a: Answers|
                            (a.checked)(next as int) == stored_view(found) implies #[trigger]
                        r.leads_to(a) == before.leads_to(a) by {
                            assert(checked(batch.space, batch.did@, op, (a.checked)(next as int))
                                == Err::<(), ErrorView>(error@));
                        }
                        r
                    },
                }
            },
            other => other,
        }
    }

    /// The step behind a write that has moved on: the next write once it has landed, and the end of
    /// the batch once it is refused.
    fn after_write(batch: Batch, write: WriteStep) -> (r: BatchStep)
        requires
            batch.wf(),
        ensures
            r.wf(),
            forall|a: Answers| #[trigger]
                r.leads_to(a) == batch.settles_after(
                    write.leads_to(
                        (a.read)(batch.ops.len() as int),
                        (a.written)(batch.ops.len() as int),
                    ),
                    a,
                ),
            batch.moves_on_to(write, r),
    {
        match write {
            WriteStep::Landed { result, op } => {
                let ghost before = batch;
                let mut batch = batch;
                batch.results.push(result);
                batch.ops.push(op);
                let ghost after = batch;
                assert(op_views(after.ops@) =~= op_views(before.ops@).push(op@));
                assert(result_views(after.results@) =~= result_views(before.results@).push(result@));
                assert(after.is_with(before, (result@, op@)));
                let r = batch.next_write();
                assert forall|a: Answers| #[trigger]
                    r.leads_to(a) == before.settles_after(Ok((result@, op@)), a) by {
                    let rest = run(
                        before.space,
                        before.did@,
                        before.pending@,
                        before.ops.len() + 1,
                        a,
                    );
                    assert(op_views(after.ops@) + rest.ops =~= op_views(before.ops@) + (seq![op@]
                        + rest.ops));
                    assert(result_views(after.results@) + rest.results =~= result_views(
                        before.results@,
                    ) + (seq![result@] + rest.results));
                }
                r
            },
            WriteStep::Refused { error } => batch.settle(Some(error)),
            write => BatchStep::Write { batch, write },
        }
    }

    /// Takes a key that nothing has, and the time.
    pub fn prepared(self, fresh: String, indexed_at: String) -> (r: BatchStep)
        requires
            self.wf(),
            self is Prepare,
        ensures
            prepared_as(self, r, fresh@, indexed_at@),
    {
        match self {
            BatchStep::Prepare { batch, op } => {
                let write = WriteStep::apply_one_write_at(
                    &batch.space,
                    batch.did.as_str(),
                    op,
                    fresh,
                    indexed_at,
                );
                let ghost before = BatchStep::Prepare { batch, op };
                let r = BatchStep::after_write(batch, write);
                assert forall|a: Answers|
                    (a.fresh)(batch.ops.len() as int) == fresh@ implies #[trigger] r.leads_to(a)
                    == before.leads_to(a) by {
                    let at = batch.ops.len() as int;
                    assert(write.leads_to((a.read)(at), (a.written)(at)) == one_write(
                        batch.space,
                        batch.did@,
                        op,
                        fresh@,
                        (a.read)(at),
                        (a.written)(at),
                    ));
                }
                r
            },
            other => other,
        }
    }

    /// Draws a key, where the write needs one, and reads the clock.
    pub fn prepare(self) -> (r: BatchStep)
        requires
            self.wf(),
            self is Prepare,
        ensures
            exists|fresh: Seq<char>, indexed_at: Seq<char>| #[trigger]
                prepared_as(self, r, fresh, indexed_at) && (self matches BatchStep::Prepare {
                    op,
                    ..
                } && {
                    &&& op.needs_key() ==> is_minted(fresh)
                    &&& is_stamp(indexed_at)
                }),
    {
        let fresh = match &self {
            BatchStep::Prepare { op: WriteOp::Create { rkey: None, .. }, .. } => generate_tid(),
            _ => String::new(),
        };
        let indexed_at = now_rfc3339();
        let ghost key = fresh@;
        let ghost at = indexed_at@;
        let r = self.prepared(fresh, indexed_at);
        assert(prepared_as(self, r, key, at));
        r
    }

    /// Takes the stored record, or that it could not be read.
    pub fn read(self, found: Result<Option<Stored>, AppError>) -> (r: BatchStep)
        requires
            self.wf(),
            self matches BatchStep::Write { write, .. } && write.reads(),
        ensures
            r.wf(),
            self matches BatchStep::Write { batch, write } && {
                &&& forall|a: Answers|
                    (a.read)(batch.ops.len() as int) == read_view(found) ==> #[trigger] r.leads_to(a)
                        == self.leads_to(a)
                &&& exists|after: WriteStep| #[trigger]
                    is_read(write, after, read_view(found)) && batch.moves_on_to(after, r)
            },
    {
        match self {
            BatchStep::Write { batch, write } => {
                let ghost before = BatchStep::Write { batch, write };
                let ghost reading = write;
                let write = write.read(found);
                let r = BatchStep::after_write(batch, write);
                assert forall|a: Answers|
                    (a.read)(batch.ops.len() as int) == read_view(found) implies #[trigger]
                r.leads_to(a) == before.leads_to(a) by {
                    let done = (a.written)(batch.ops.len() as int);
                    assert(write.leads_to(read_view(found), done) == reading.leads_to(
                        read_view(found),
                        done,
                    ));
                }
                r
            },
            other => other,
        }
    }

    /// Takes how the store took the write.
    pub fn written(self, done: Result<(), AppError>) -> (r: BatchStep)
        requires
            self.wf(),
            self matches BatchStep::Write { write, .. } && write.changes(),
        ensures
            r.wf(),
            self matches BatchStep::Write { batch, write } && {
                &&& forall|a: Answers|
                    (a.written)(batch.ops.len() as int) == done_view(done) ==> #[trigger]
                    r.leads_to(a) == self.leads_to(a)
                &&& exists|after: WriteStep| #[trigger]
                    after.ends(write, done_view(done)) && batch.moves_on_to(after, r)
            },
    {
        match self {
            BatchStep::Write { batch, write } => {
                let ghost before = BatchStep::Write { batch, write };
                let ghost writing = write;
                let write = write.written(done);
                let r = BatchStep::after_write(batch, write);
                assert forall|a: Answers|
                    (a.written)(batch.ops.len() as int) == done_view(done) implies #[trigger]
                r.leads_to(a) == before.leads_to(a) by {
                    let read = (a.read)(batch.ops.len() as int);
                    assert(write.leads_to(read, done_view(done)) == writing.leads_to(
                        read,
                        done_view(done),
                    ));
                }
                r
            },
            other => other,
        }
    }

    /// Takes the revision that was handed out.
    pub fn allocated(self, rev: String) -> (r: BatchStep)
        requires
            self.wf(),
            self matches BatchStep::Commit { commit, .. } && commit is Allocate,
        ensures
            r.wf(),
            forall|a: Answers| a.rev == rev@ ==> #[trigger] r.leads_to(a) == self.leads_to(a),
            self matches BatchStep::Commit { results, failure, commit: before } && r
                matches BatchStep::Commit { results: res, failure: fail, commit: after } && res
                == results && fail == failure && exists|created_at: Seq<char>|
                is_stamp(created_at) && #[trigger] is_allocated(before, after, rev, created_at),
    {
        match self {
            BatchStep::Commit { results, failure, commit } => {
                let ghost before = commit;
                let commit = commit.allocated(rev);
                let ghost after = commit;
                proof {
                    if let CommitStep::Allocate { ops, .. } = before {
                        if let CommitStep::Append { entries, .. } = after {
                            assert forall|i: int| 0 <= i < ops.len() implies recorded_op(
                                (#[trigger] entries@[i])@,
                            ) == ops@[i]@ by {}
                            assert(recorded_ops(entries@.skip(0)) =~= op_views(ops@));
                        }
                    }
                }
                BatchStep::Commit { results, failure, commit }
            },
            other => other,
        }
    }

    /// Takes that the entry has been appended to the log.
    pub fn appended(self) -> (r: BatchStep)
        requires
            self.wf(),
            self matches BatchStep::Commit { commit, .. } && commit is Append,
        ensures
            r.wf(),
            self matches BatchStep::Commit {
                commit: CommitStep::Append { entries, next, .. },
                ..
            } && forall|a: Answers| #[trigger]
                r.leads_to(a).reply == self.leads_to(a).reply && seq![
                    recorded_op(entries@[next as int]@),
                ] + r.leads_to(a).recorded == self.leads_to(a).recorded,
            self matches BatchStep::Commit { results, failure, commit } && r == (BatchStep::Commit {
                results,
                failure,
                commit: commit.after_append(),
            }),
    {
        match self {
            BatchStep::Commit { results, failure, commit } => {
                let ghost before = commit;
                let commit = commit.appended();
                proof {
                    if let CommitStep::Append { entries, next, .. } = before {
                        let left = recorded_ops(entries@.skip(next as int));
                        let one = seq![recorded_op(entries@[next as int]@)];
                        assert(left =~= one + recorded_ops(entries@.skip(next + 1)));
                        assert(next + 1 == entries.len() ==> left =~= one + Seq::<OpView>::empty());
                    }
                }
                BatchStep::Commit { results, failure, commit }
            },
            other => other,
        }
    }

    /// Takes that the revision has been published. Now the caller can be told.
    pub fn published(self) -> (r: BatchStep)
        requires
            self.wf(),
            self matches BatchStep::Commit { commit, .. } && commit is Publish,
        ensures
            r is Done || r is Refused,
            forall|a: Answers| #[trigger] r.leads_to(a) == self.leads_to(a),
    {
        match self {
            BatchStep::Commit { results, failure, commit } => match failure {
                Some(error) => BatchStep::Refused { error },
                None => match commit.published() {
                    CommitStep::Done { rev } => BatchStep::Done { results, rev: Some(rev) },
                    _ => BatchStep::Done { results, rev: None },
                },
            },
            other => other,
        }
    }
}

proof fn lemma_nothing_in_front(batch: Batch, r: Run)
    requires
        batch.ops@.len() == 0,
        batch.results@.len() == 0,
    ensures
        behind(batch, r) == r,
{
    assert(op_views(batch.ops@) + r.ops =~= r.ops);
    assert(result_views(batch.results@) + r.results =~= r.results);
}

/// A batch that is refused when it is held against what is stored leaves nothing behind: no write is
/// recorded, and the caller is told the refusal.
pub proof fn law_refused_check_records_nothing(
    space: Space,
    did: Seq<char>,
    swap_commit: Option<Seq<char>>,
    writes: Seq<WriteOp>,
    a: Answers,
)
    requires
        !swap_commit_holds(option_text(space.revision), swap_commit) || prechecked(
            space,
            did,
            writes,
            0,
            a,
        ) is Err,
    ensures
        applied(space, did, swap_commit, writes, a).recorded.len() == 0,
        applied(space, did, swap_commit, writes, a).reply is Err,
{
}

/// A batch without writes gets no revision, and has nothing to record.
pub proof fn law_empty_batch_gets_no_revision(
    space: Space,
    did: Seq<char>,
    swap_commit: Option<Seq<char>>,
    a: Answers,
)
    requires
        swap_commit_holds(option_text(space.revision), swap_commit),
    ensures
        applied(space, did, swap_commit, Seq::empty(), a) == (Outcome {
            recorded: Seq::empty(),
            reply: Ok((Seq::empty(), None)),
        }),
{
}

/// The writes of a batch land one after the other. What is recorded, and what is answered, is that
/// of the writes in front of the first that is refused, each in its place; where none is refused, it
/// is that of all of them.
pub proof fn law_landed_writes_are_recorded_in_order(
    space: Space,
    did: Seq<char>,
    writes: Seq<WriteOp>,
    at: int,
    a: Answers,
)
    ensures
        ({
            let r = run(space, did, writes, at, a);
            let n = r.ops.len() as int;
            &&& r.results.len() == n <= writes.len()
            &&& forall|i: int|
                0 <= i < n ==> write_at(space, did, writes[i], at + i, a) == Ok::<
                    Landing,
                    ErrorView,
                >((r.results[i], #[trigger] r.ops[i]))
            &&& r.failure is None <==> n == writes.len()
            &&& r.failure matches Some(e) ==> n < writes.len() && write_at(
                space,
                did,
                writes[n],
                at + n,
                a,
            ) == Err::<Landing, ErrorView>(e)
        }),
    decreases writes.len(),
{
    if writes.len() > 0 {
        let first = write_at(space, did, writes[0], at, a);
        if let Ok(landing) = first {
            let rest = writes.skip(1);
            law_landed_writes_are_recorded_in_order(space, did, rest, at + 1, a);
            let sub = run(space, did, rest, at + 1, a);
            let r = run(space, did, writes, at, a);
            assert forall|i: int| 0 <= i < r.ops.len() implies write_at(
                space,
                did,
                writes[i],
                at + i,
                a,
            ) == Ok::<Landing, ErrorView>((r.results[i], #[trigger] r.ops[i])) by {
                if i > 0 {
                    assert(r.ops[i] == sub.ops[i - 1]);
                    assert(r.results[i] == sub.results[i - 1]);
                    assert(writes[i] == rest[i - 1]);
                }
            }
            if sub.failure is Some {
                assert(writes[r.ops.len() as int] == rest[sub.ops.len() as int]);
            }
        }
    }
}

/// A batch that was stopped still has everything recorded that landed before: the refusal changes
/// what the caller is told, and nothing about the record.
pub proof fn law_stopped_batch_is_still_recorded(
    space: Space,
    did: Seq<char>,
    swap_commit: Option<Seq<char>>,
    writes: Seq<WriteOp>,
    a: Answers,
)
    requires
        swap_commit_holds(option_text(space.revision), swap_commit),
        prechecked(space, did, writes, 0, a) is Ok,
    ensures
        ({
            let r = run(space, did, writes, 0, a);
            let outcome = applied(space, did, swap_commit, writes, a);
            &&& outcome.recorded == r.ops
            &&& r.failure matches Some(e) ==> outcome.reply == Err::<Reply, ErrorView>(e)
            &&& r.failure is None ==> outcome.reply == Ok::<Reply, ErrorView>(
                (
                    r.results,
                    if writes.len() == 0 {
                        None
                    } else {
                        Some(a.rev)
                    },
                ),
            )
        }),
{
    law_landed_writes_are_recorded_in_order(space, did, writes, 0, a);
}

/// A batch that passes its check, and that finds everything stored as it was then, lands whole.
pub proof fn law_undisturbed_batch_lands(
    space: Space,
    did: Seq<char>,
    swap_commit: Option<Seq<char>>,
    writes: Seq<WriteOp>,
    a: Answers,
)
    requires
        swap_commit_holds(option_text(space.revision), swap_commit),
        prechecked(space, did, writes, 0, a) is Ok,
        forall|i: int|
            0 <= i < writes.len() ==> #[trigger] (a.read)(i) == Ok::<Option<StoredView>, ErrorView>(
                (a.checked)(i),
            ),
        forall|i: int|
            0 <= i < writes.len() ==> #[trigger] (a.written)(i) == Ok::<(), ErrorView>(()),
    ensures
        applied(space, did, swap_commit, writes, a).reply is Ok,
        applied(space, did, swap_commit, writes, a).recorded.len() == writes.len(),
{
    let r = run(space, did, writes, 0, a);
    law_landed_writes_are_recorded_in_order(space, did, writes, 0, a);
    let n = r.ops.len() as int;
    if r.failure is Some {
        lemma_each_was_checked(space, did, writes, 0, n, a);
        assert((a.read)(n) == Ok::<Option<StoredView>, ErrorView>((a.checked)(n)));
        assert((a.written)(n) == Ok::<(), ErrorView>(()));
        crate::writes::law_checked_write_lands(
            space,
            did,
            writes[n],
            (a.fresh)(n),
            (a.checked)(n),
        );
    }
}

proof fn lemma_each_was_checked(
    space: Space,
    did: Seq<char>,
    writes: Seq<WriteOp>,
    from: int,
    i: int,
    a: Answers,
)
    requires
        0 <= from <= i < writes.len(),
        prechecked(space, did, writes, from, a) is Ok,
    ensures
        checked(space, did, writes[i], (a.checked)(i)) == Ok::<(), ErrorView>(()),
    decreases i - from,
{
    if from < i {
        lemma_each_was_checked(space, did, writes, from + 1, i, a);
    }
}

/// Once a commit has been carried out, whoever follows the log is handed its writes: a reader who had
/// come to the end gets exactly these, in order, and so does one who reads a log from the start that
/// was empty before. The published revision is that of the newest operation. The newest revision of
/// the log before has to be a TID that another can follow.
pub proof fn law_committed_writes_reach_every_follower(
    before: CommitStep,
    after: CommitStep,
    offered: Seq<char>,
    revision: String,
    created_at: Seq<char>,
    seen: Published,
)
    requires
        before matches CommitStep::Allocate { ops, .. } && 0 < ops.len() <= i32::MAX,
        is_allocated(before, after, revision, created_at),
        is_log(seen.log),
        seen.log.len() > 0 ==> {
            let newest = seen.log.last().rev;
            &&& can_be_followed(newest)
            &&& revision@ == following(offered, Some(newest))
        },
    ensures
        ({
            let ops = before->ops;
            let cursor = if seen.log.len() > 0 {
                Some(entry_position(seen.log.last()))
            } else {
                None
            };
            let done = interrupted(after, seen, ops.len() as nat + 1);
            &&& is_log(done.log)
            &&& crate::oplog::behind(done.log, cursor).map_values(|e: EntryView| recorded_op(e))
                == op_views(ops@)
            &&& done.revision == Some(revision@)
            &&& done.log.last().rev == revision@
        }),
{
    if let CommitStep::Allocate { ops, .. } = before {
        if let CommitStep::Append { space_id, rev, entries, next } = after {
            let n = ops.len() as nat + 1;
            law_commit_appends_before_it_publishes(space_id, rev, entries, next, seen, n);
            let added = entry_views(entries@);
            assert(entries@.skip(0) =~= entries@);
            let done = interrupted(after, seen, n);
            assert(done.log == seen.log + added);
            assert forall|i: int| 0 <= i < added.len() implies entry_position(#[trigger] added[i]) == (
                revision@,
                i as i32,
            ) && recorded_op(added[i]) == ops@[i]@ by {
                assert(added[i] == entries@[i]@);
            }
            assert(added.map_values(|e: EntryView| recorded_op(e)) =~= op_views(ops@));
            assert(done.log.last() == added[added.len() - 1]);
            if seen.log.len() > 0 {
                law_next_revision_is_visible(seen.log, offered, added);
            } else {
                law_log_stays_in_order(seen.log, revision@, added);
                assert(done.log =~= added);
            }
        }
    }
}

/// A batch that expects no revision is held up by none. One that expects a revision needs the space to be
/// at just that one; a space without a revision is at the empty one.
pub proof fn law_expected_revision_has_to_be_the_current(
    current: Option<Seq<char>>,
    at: Seq<char>,
    expected: Seq<char>,
)
    ensures
        swap_commit_holds(current, None),
        swap_commit_holds(Some(at), Some(expected)) <==> at == expected,
        swap_commit_holds(None, Some(expected)) <==> expected == Seq::<char>::empty(),
{
    assert(expected.len() == 0 ==> expected =~= Seq::<char>::empty());
}

/// A batch that expects another revision than the space is at is refused for that, whatever it holds and
/// whatever is stored, and leaves nothing behind.
pub proof fn law_outdated_batch_is_refused(
    space: Space,
    did: Seq<char>,
    expected: Seq<char>,
    writes: Seq<WriteOp>,
    a: Answers,
)
    requires
        match space.revision {
            Some(at) => at@ != expected,
            None => expected.len() > 0,
        },
    ensures
        applied(space, did, Some(expected), writes, a) == (Outcome {
            recorded: Seq::empty(),
            reply: Err(ErrorView::Conflict("swapCommit mismatch"@)),
        }),
{
}

/// A batch passes its check just where each of its writes does, held against what is stored for that
/// write. Where one does not, the refusal is that of the first.
pub proof fn law_batch_passes_with_all_its_writes(
    space: Space,
    did: Seq<char>,
    writes: Seq<WriteOp>,
    from: int,
    a: Answers,
)
    requires
        0 <= from <= writes.len(),
    ensures
        match prechecked(space, did, writes, from, a) {
            Ok(_) => forall|i: int|
                from <= i < writes.len() ==> checked(
                    space,
                    did,
                    #[trigger] writes[i],
                    (a.checked)(i),
                ) is Ok,
            Err(e) => exists|k: int|
                from <= k < writes.len() && checked(
                    space,
                    did,
                    #[trigger] writes[k],
                    (a.checked)(k),
                ) == Err::<(), ErrorView>(e) && forall|i: int|
                    from <= i < k ==> checked(
                        space,
                        did,
                        #[trigger] writes[i],
                        (a.checked)(i),
                    ) is Ok,
        },
    decreases writes.len() - from,
{
    if from < writes.len() {
        match checked(space, did, writes[from], (a.checked)(from)) {
            Err(e) => {
                assert(checked(space, did, writes[from], (a.checked)(from)) == Err::<
                    (),
                    ErrorView,
                >(e));
            },
            Ok(_) => {
                law_batch_passes_with_all_its_writes(space, did, writes, from + 1, a);
                if let Err(e) = prechecked(space, did, writes, from + 1, a) {
                    let k = choose|k: int|
                        from + 1 <= k < writes.len() && checked(
                            space,
                            did,
                            #[trigger] writes[k],
                            (a.checked)(k),
                        ) == Err::<(), ErrorView>(e) && forall|i: int|
                            from + 1 <= i < k ==> checked(
                                space,
                                did,
                                #[trigger] writes[i],
                                (a.checked)(i),
                            ) is Ok;
                    assert(checked(space, did, writes[k], (a.checked)(k)) == Err::<(), ErrorView>(
                        e,
                    ));
                }
            },
        }
    }
}

/// A batch that does not pass its check is refused with that refusal, and leaves nothing behind.
pub proof fn law_refused_check_is_the_answer(
    space: Space,
    did: Seq<char>,
    writes: Seq<WriteOp>,
    e: ErrorView,
    a: Answers,
)
    requires
        prechecked(space, did, writes, 0, a) == Err::<(), ErrorView>(e),
    ensures
        applied(space, did, None, writes, a) == (Outcome { recorded: Seq::empty(), reply: Err(e) }),
{
}

/// A write at a position of a batch is carried out with the answers for that position, and no others.
pub proof fn law_each_write_has_its_own_answers(
    space: Space,
    did: Seq<char>,
    op: WriteOp,
    at: int,
    a: Answers,
)
    ensures
        write_at(space, did, op, at, a) == one_write(
            space,
            did,
            op,
            (a.fresh)(at),
            (a.read)(at),
            (a.written)(at),
        ),
{
}

/// One write on its own, which is not held against anything before: where it lands, it is recorded by
/// itself and answered with a revision; where it does not, nothing is recorded, and the caller is told
/// why.
pub proof fn law_single_write_is_recorded_or_refused(
    space: Space,
    did: Seq<char>,
    op: WriteOp,
    a: Answers,
)
    ensures
        match one_write(space, did, op, (a.fresh)(0), (a.read)(0), (a.written)(0)) {
            Ok(landing) => settled(run(space, did, seq![op], 0, a), a) == (Outcome {
                recorded: seq![landing.1],
                reply: Ok((seq![landing.0], Some(a.rev))),
            }),
            Err(e) => settled(run(space, did, seq![op], 0, a), a) == (Outcome {
                recorded: Seq::empty(),
                reply: Err(e),
            }),
        },
{
    assert(seq![op].skip(1) =~= Seq::<WriteOp>::empty());
    assert(run(space, did, seq![op].skip(1), 1, a).ops =~= Seq::<OpView>::empty());
    if let Ok(landing) = write_at(space, did, op, 0, a) {
        assert(seq![landing.1] + Seq::<OpView>::empty() =~= seq![landing.1]);
        assert(seq![landing.0] + Seq::<ResultView>::empty() =~= seq![landing.0]);
    }
}

/// An entry of the log records what was to be recorded of its write: its action, where it went, the
/// version that it left and the one before.
pub proof fn law_entries_record_their_writes(e: EntryView)
    ensures
        recorded_op(e).action == e.action,
        recorded_op(e).collection == e.collection,
        recorded_op(e).rkey == e.rkey,
        recorded_op(e).cid == e.cid,
        recorded_op(e).prev == e.prev,
{
}

/// What has landed of a batch goes into the repo of its author, in its space, with nothing left out,
/// whether or not the batch was stopped. Where nothing has landed, nothing is committed.
pub proof fn law_landed_writes_go_to_their_author(
    batch: Batch,
    stopped: Option<AppError>,
    r: BatchStep,
)
    requires
        batch.settles_as(stopped, r),
    ensures
        batch.ops.len() > 0 ==> (r matches BatchStep::Commit { results, failure, commit } && {
            &&& results == batch.results
            &&& failure == stopped
            &&& commit matches CommitStep::Allocate { space_id, author_did, ops } && space_id
                == batch.space.id && author_did@ == batch.did@ && ops == batch.ops
        }),
        batch.ops.len() == 0 && stopped is None ==> r == (BatchStep::Done {
            results: batch.results,
            rev: None,
        }),
        batch.ops.len() == 0 && stopped is Some ==> r == (BatchStep::Refused {
            error: stopped->0,
        }),
{
}

/// A batch goes on with the first of the writes that are still to come, and keeps the others, and all
/// that has landed, as they are.
pub proof fn law_batch_goes_on_in_turn(batch: Batch, r: BatchStep)
    requires
        batch.goes_on_to(r),
        batch.pending@.len() > 0,
    ensures
        r matches BatchStep::Prepare { batch: rest, op } && {
            &&& seq![op] + rest.pending@ == batch.pending@
            &&& rest.space == batch.space
            &&& rest.did == batch.did
            &&& rest.results == batch.results
            &&& rest.ops == batch.ops
        },
{
    if let BatchStep::Prepare { batch: rest, op } = r {
        assert(seq![op] + rest.pending@ =~= batch.pending@);
    }
}

/// A batch with one more write landed has its recording and its answer behind those before, and nothing
/// else changed.
pub proof fn law_landing_adds_one_write(after: Batch, before: Batch, landing: Landing)
    requires
        after.is_with(before, landing),
    ensures
        after.space == before.space,
        after.did == before.did,
        after.pending == before.pending,
        after.ops.len() == before.ops.len() + 1,
        after.results.len() == before.results.len() + 1,
        after.ops@.last()@ == landing.1,
        after.results@.last()@ == landing.0,
        forall|i: int| 0 <= i < before.ops.len() ==> (#[trigger] after.ops@[i])@ == before.ops@[i]@,
        forall|i: int|
            0 <= i < before.results.len() ==> (#[trigger] after.results@[i])@ == before.results@[i]@,
{
    assert(op_views(after.ops@).len() == after.ops.len());
    assert(op_views(before.ops@).len() == before.ops.len());
    assert(result_views(after.results@).len() == after.results.len());
    assert(result_views(before.results@).len() == before.results.len());
    assert(op_views(after.ops@).last() == landing.1);
    assert(result_views(after.results@).last() == landing.0);
    assert forall|i: int| 0 <= i < before.ops.len() implies (#[trigger] after.ops@[i])@
        == before.ops@[i]@ by {
        assert(op_views(after.ops@)[i] == op_views(before.ops@)[i]);
    }
    assert forall|i: int| 0 <= i < before.results.len() implies (#[trigger] after.results@[i])@
        == before.results@[i]@ by {
        assert(result_views(after.results@)[i] == result_views(before.results@)[i]);
    }
}

/// While a batch is held against what is stored, it stays as it is, and its writes are looked at in turn.
/// From there it goes on to its next write, or to its end.
pub proof fn law_checking_changes_nothing(batch: Batch, from: int, r: BatchStep)
    requires
        batch.checks_on_to(from, r),
    ensures
        r matches BatchStep::Check { batch: held, next, .. } ==> held == batch && from <= next,
        r is Prepare ==> batch.goes_on_to(r),
        r is Commit || r is Done ==> batch.settles_as(None, r),
        !(r is Write),
{
}

/// What a write on its own begins with is that write, in its space, by its author, and nothing else.
pub proof fn law_single_write_stands_alone(
    r: BatchStep,
    space: Space,
    did: String,
    write: WriteOp,
)
    requires
        r.is_single(space, did, write),
    ensures
        r matches BatchStep::Prepare { batch, op } && op == write && batch.space == space && batch.did
            == did && batch.pending@.len() == 0 && batch.ops@.len() == 0 && batch.results@.len() == 0,
{
}

/// A write that is refused stops the batch: what has landed before is committed together with the
/// refusal, and without anything to commit the refusal is the end. A write that has not ended yet goes
/// on by itself.
pub proof fn law_refused_write_stops_the_batch(
    batch: Batch,
    error: AppError,
    write: WriteStep,
    r: BatchStep,
)
    ensures
        batch.moves_on_to(WriteStep::Refused { error }, r) && batch.ops.len() > 0 ==> (r
            matches BatchStep::Commit { failure, .. } && failure == Some(error)),
        batch.moves_on_to(WriteStep::Refused { error }, r) && batch.ops.len() == 0 ==> r == (
        BatchStep::Refused { error }),
        !write.ended() && batch.moves_on_to(write, r) ==> r == (BatchStep::Write { batch, write }),
{
}

/// A write that has landed is kept: its recording and its answer stand behind those before, and the batch
/// goes on with its next write, or, behind the last, with committing all of them.
pub proof fn law_landed_write_is_kept(
    batch: Batch,
    result: WriteResult,
    op: PendingOp,
    r: BatchStep,
)
    requires
        batch.moves_on_to(WriteStep::Landed { result, op }, r),
    ensures
        batch.pending@.len() > 0 ==> (r matches BatchStep::Prepare { batch: rest, op: next } && {
            &&& next == batch.pending@[0]
            &&& rest.pending@ == batch.pending@.skip(1)
            &&& rest.space == batch.space
            &&& rest.did == batch.did
            &&& op_views(rest.ops@) == op_views(batch.ops@).push(op@)
            &&& result_views(rest.results@) == result_views(batch.results@).push(result@)
        }),
        batch.pending@.len() == 0 ==> (r matches BatchStep::Commit { results, failure, commit } && {
            &&& failure is None
            &&& result_views(results@) == result_views(batch.results@).push(result@)
            &&& commit matches CommitStep::Allocate { space_id, author_did, ops } && space_id
                == batch.space.id && author_did@ == batch.did@ && op_views(ops@) == op_views(
                batch.ops@,
            ).push(op@)
        }),
{
    let after = choose|after: Batch| #[trigger]
        after.is_with(batch, (result@, op@)) && after.goes_on_to(r);
    assert(op_views(after.ops@).len() == after.ops.len());
}

/// Once a key and the time have been drawn, the write is on its way as it was asked for: a delete of a
/// named version goes to the author's own record in that version, and a put over a named version
/// hands the author's own record to the store under that version.
pub proof fn law_prepared_write_is_on_its_way(
    batch: Batch,
    op: WriteOp,
    after: BatchStep,
    fresh: Seq<char>,
    indexed_at: Seq<char>,
)
    requires
        prepared_as(BatchStep::Prepare { batch, op }, after, fresh, indexed_at),
        op is Delete || crate::service::collection_allowed(batch.space, op.target()),
    ensures
        after matches BatchStep::Write { batch: same, write } && same == batch && begins(
            write,
            batch.space,
            batch.did@,
            op,
            fresh,
            indexed_at,
        ),
{
    let write = choose|write: WriteStep| #[trigger]
        begins(write, batch.space, batch.did@, op, fresh, indexed_at) && batch.moves_on_to(
            write,
            after,
        );
    assert(!write.ended());
}

/// A batch without further writes comes to its end.
pub proof fn law_batch_ends_behind_its_last_write(batch: Batch, r: BatchStep)
    requires
        batch.goes_on_to(r),
        batch.pending@.len() == 0,
    ensures
        batch.ops.len() > 0 ==> (r matches BatchStep::Commit { failure, .. } && failure is None),
        batch.ops.len() == 0 ==> r is Done,
{
}

} // verus!
