//! The op log: one entry for each write to a repo, in the order of revisions.

use vstd::prelude::*;
use crate::clock::{
    instant_string, instant_text, now, within_calendar, FIRST_SECOND, LAST_SECOND,
};
use crate::error::{AppError, ErrorView};
use crate::json::{json_parse, parse_json};
use crate::statement::{ParamView, Statement, StatementView};
use crate::text::{
    characters, i32_of, int_string, int_text, is_white_space, lemma_int_text,
    lemma_nat_text, lemma_span_before, lemma_text_order, option_text, parse_i32, position,
    same_text, sorts_before, span_before, text_less, trim, trimmed, trimmed_end, trimmed_start,
};
use crate::tid::{can_be_followed, following, law_next_sorts_after};
use crate::types::{entry_views, law_action_round_trip, EntryView, OplogAction, OplogEntry};

verus! {

/// How many days a repo's ops are kept. A client that was away for longer takes a fresh snapshot in
/// place of the ops that it missed.
pub const RETENTION_DAYS: i64 = 30;

/// A position in one repo's log: everything at or before it has been delivered.
///
/// A batch of writes shares one revision, and a page of the log may end inside it. The index says
/// how far into the revision the reader has come.
#[derive(Debug, PartialEq, Eq)]
pub struct OpCursor {
    pub rev: String,
    pub idx: i32,
}

impl Clone for OpCursor {
    fn clone(&self) -> (r: OpCursor)
        ensures
            r == *self,
    {
        OpCursor { rev: self.rev.clone(), idx: self.idx }
    }
}

/// A position by its revision and its index.
pub type Position = (Seq<char>, i32);

impl View for OpCursor {
    type V = Position;

    open spec fn view(&self) -> Position {
        (self.rev@, self.idx)
    }
}

/// The written form of a position.
pub open spec fn wire_text(rev: Seq<char>, idx: i32) -> Seq<char> {
    rev + ":"@ + int_text(idx as int)
}

/// The position that a text denotes: revision and index, or a revision alone, which stands for all
/// of it.
pub open spec fn position_of(raw: Seq<char>) -> Option<Position> {
    let s = trimmed(raw);
    let k = span_before(s, ':') as int;
    if s.len() == 0 {
        None
    } else if k < s.len() {
        match i32_of(s.skip(k + 1)) {
            Some(idx) => Some((s.take(k), idx)),
            None => None,
        }
    } else {
        Some((s, i32::MAX))
    }
}

impl OpCursor {
    /// Reads the written form of a cursor.
    pub fn parse(raw: &str) -> (r: Option<OpCursor>)
        ensures
            match r {
                Some(c) => position_of(raw@) == Some(c@),
                None => position_of(raw@) is None,
            },
    {
        let s = trim(raw);
        let chars = characters(s);
        if chars.len() == 0 {
            return None;
        }
        let k: usize = position(&chars, ':');
        proof {
            lemma_span_before(s@, ':');
        }
        if k < chars.len() {
            let rev = s.substring_char(0, k);
            let tail = s.substring_char(k + 1, chars.len());
            assert(rev@ =~= s@.take(k as int));
            assert(tail@ =~= s@.skip(k + 1));
            match parse_i32(&characters(tail)) {
                Some(idx) => Some(OpCursor { rev: rev.to_owned(), idx }),
                None => None,
            }
        } else {
            Some(OpCursor { rev: s.to_owned(), idx: i32::MAX })
        }
    }

    /// Writes a position.
    pub fn format(rev: &str, idx: i32) -> (r: String)
        ensures
            r@ == wire_text(rev@, idx),
    {
        let mut s = rev.to_owned();
        s.append(":");
        let n = int_string(idx);
        s.append(n.as_str());
        s
    }

    /// Writes this cursor.
    pub fn to_wire(&self) -> (r: String)
        ensures
            r@ == wire_text(self@.0, self@.1),
    {
        OpCursor::format(self.rev.as_str(), self.idx)
    }
}

/// Whether one position lies strictly before another: by revision, then by index.
pub open spec fn position_less(a: Position, b: Position) -> bool {
    text_less(a.0, b.0) || (a.0 == b.0 && a.1 < b.1)
}

/// Where an operation stands in the log.
pub open spec fn entry_position(e: EntryView) -> Position {
    (e.rev, e.idx)
}

/// The insertion of an operation into the log.
pub open spec fn append_query(e: EntryView) -> StatementView {
    StatementView {
        sql: "INSERT INTO happyview_space_record_oplog (id, space_id, author_did, rev, idx, action, collection, rkey, cid, prev, created_at) VALUES (?, ?, ?, ?, ?, ?, ?, ?, ?, ?, ?)"@,
        params: seq![
            ParamView::Text(e.id),
            ParamView::Text(e.space_id),
            ParamView::Text(e.author_did),
            ParamView::Text(e.rev),
            ParamView::Int(e.idx as i64),
            ParamView::Text(e.action.name()),
            ParamView::Text(e.collection),
            ParamView::Text(e.rkey),
            ParamView::OptionalText(e.cid),
            ParamView::OptionalText(e.prev),
            ParamView::Text(e.created_at),
        ],
    }
}

/// A statement that appends an operation to the log.
pub fn append_op(entry: &OplogEntry) -> (r: Statement)
    ensures
        r@ == append_query(entry@),
{
    let r = Statement::new(
        "INSERT INTO happyview_space_record_oplog (id, space_id, author_did, rev, idx, action, collection, rkey, cid, prev, created_at) VALUES (?, ?, ?, ?, ?, ?, ?, ?, ?, ?, ?)",
    ).text(entry.id.as_str()).text(entry.space_id.as_str()).text(entry.author_did.as_str()).text(
        entry.rev.as_str(),
    ).integer(entry.idx as i64).text(entry.action.as_str()).text(entry.collection.as_str()).text(
        entry.rkey.as_str(),
    ).optional(&entry.cid).optional(&entry.prev).text(entry.created_at.as_str());
    assert(r@ =~= append_query(entry@));
    r
}

/// A statement that reads where a repo's newest operation stands: the repo's published head.
///
/// The head is read from the log and not from the mark up to which revisions have been handed out:
/// whoever sees a head must be able to fetch every operation up to it.
pub fn head(space_id: &str, author_did: &str) -> (r: Statement)
    ensures
        r@ == (StatementView {
            sql: "SELECT rev, idx FROM happyview_space_record_oplog WHERE space_id = ? AND author_did = ? ORDER BY rev DESC, idx DESC LIMIT 1"@,
            params: seq![ParamView::Text(space_id@), ParamView::Text(author_did@)],
        }),
{
    Statement::new(
        "SELECT rev, idx FROM happyview_space_record_oplog WHERE space_id = ? AND author_did = ? ORDER BY rev DESC, idx DESC LIMIT 1",
    ).text(space_id).text(author_did)
}

/// A statement that reads where a repo's oldest operation stands that is still kept.
pub fn floor(space_id: &str, author_did: &str) -> (r: Statement)
    ensures
        r@ == (StatementView {
            sql: "SELECT rev, idx FROM happyview_space_record_oplog WHERE space_id = ? AND author_did = ? ORDER BY rev ASC, idx ASC LIMIT 1"@,
            params: seq![ParamView::Text(space_id@), ParamView::Text(author_did@)],
        }),
{
    Statement::new(
        "SELECT rev, idx FROM happyview_space_record_oplog WHERE space_id = ? AND author_did = ? ORDER BY rev ASC, idx ASC LIMIT 1",
    ).text(space_id).text(author_did)
}

/// Whether the operations behind a cursor are all still kept, for a log with this floor. An empty
/// log has no floor, and can vouch for no cursor.
pub open spec fn servable(floor: Option<Position>, cursor: Position) -> bool {
    floor matches Some(f) && !position_less(cursor, f)
}

/// The position of a cursor that may be missing.
pub open spec fn option_position(cursor: Option<OpCursor>) -> Option<Position> {
    match cursor {
        Some(c) => Some(c@),
        None => None,
    }
}

/// Whether a log with this floor can be read on from a cursor.
pub fn can_serve(floor: &Option<OpCursor>, cursor: &OpCursor) -> (r: bool)
    ensures
        r == servable(option_position(*floor), cursor@),
{
    match floor {
        None => false,
        Some(f) => {
            if sorts_before(cursor.rev.as_str(), f.rev.as_str()) {
                false
            } else {
                !(same_text(cursor.rev.as_str(), f.rev.as_str()) && cursor.idx < f.idx)
            }
        },
    }
}

/// The condition that keeps a query to the operations strictly behind a cursor, on columns with a
/// prefix.
pub open spec fn after_cursor_text(prefix: Seq<char>) -> Seq<char> {
    "AND (("@ + prefix + "rev > ?) OR ("@ + prefix + "rev = ? AND "@ + prefix + "idx > ?)) "@
}

/// Spells out the comparison of revision and index, since not every database compares rows.
pub fn after_cursor_sql(prefix: &str) -> (r: String)
    ensures
        r@ == after_cursor_text(prefix@),
{
    let mut s = "AND ((".to_owned();
    s.append(prefix);
    s.append("rev > ?) OR (");
    s.append(prefix);
    s.append("rev = ? AND ");
    s.append(prefix);
    s.append("idx > ?)) ");
    s
}

/// A query for a page of one repo's log: the operations behind the cursor, in order, up to a limit.
pub open spec fn page_query(
    select: Seq<char>,
    prefix: Seq<char>,
    order: Seq<char>,
    space_id: Seq<char>,
    author_did: Seq<char>,
    cursor: Option<Position>,
    limit: i64,
) -> StatementView {
    let repo = seq![ParamView::Text(space_id), ParamView::Text(author_did)];
    match cursor {
        None => StatementView { sql: select + order, params: repo.push(ParamView::Int(limit)) },
        Some(c) => StatementView {
            sql: select + after_cursor_text(prefix) + order,
            params: repo + seq![
                ParamView::Text(c.0),
                ParamView::Text(c.0),
                ParamView::Int(c.1 as i64),
                ParamView::Int(limit),
            ],
        },
    }
}

/// The position of a borrowed cursor that may be missing.
pub open spec fn cursor_position(cursor: Option<&OpCursor>) -> Option<Position> {
    match cursor {
        Some(c) => Some(c@),
        None => None,
    }
}

fn page_statement(
    select: &str,
    prefix: &str,
    order: &str,
    space_id: &str,
    author_did: &str,
    cursor: Option<&OpCursor>,
    limit: i64,
) -> (r: Statement)
    ensures
        r@ == page_query(
            select@,
            prefix@,
            order@,
            space_id@,
            author_did@,
            cursor_position(cursor),
            limit,
        ),
{
    let mut sql = select.to_owned();
    match cursor {
        None => {
            sql.append(order);
            let s = Statement::new(sql.as_str()).text(space_id).text(author_did).integer(limit);
            assert(s@.params =~= seq![
                ParamView::Text(space_id@),
                ParamView::Text(author_did@),
            ].push(ParamView::Int(limit)));
            s
        },
        Some(c) => {
            let after = after_cursor_sql(prefix);
            sql.append(after.as_str());
            sql.append(order);
            let s = Statement::new(sql.as_str()).text(space_id).text(author_did).text(
                c.rev.as_str(),
            ).text(c.rev.as_str()).integer(c.idx as i64).integer(limit);
            assert(s@.params =~= seq![ParamView::Text(space_id@), ParamView::Text(author_did@)]
                + seq![
                ParamView::Text(c@.0),
                ParamView::Text(c@.0),
                ParamView::Int(c@.1 as i64),
                ParamView::Int(limit),
            ]);
            s
        },
    }
}

/// A statement that reads a page of a repo's log.
pub fn list_ops(space_id: &str, author_did: &str, cursor: Option<&OpCursor>, limit: i64) -> (r:
    Statement)
    ensures
        r@ == page_query(
            "SELECT id, space_id, author_did, rev, idx, action, collection, rkey, cid, prev, created_at FROM happyview_space_record_oplog WHERE space_id = ? AND author_did = ? "@,
            ""@,
            "ORDER BY rev, idx LIMIT ?"@,
            space_id@,
            author_did@,
            cursor_position(cursor),
            limit,
        ),
{
    page_statement(
        "SELECT id, space_id, author_did, rev, idx, action, collection, rkey, cid, prev, created_at FROM happyview_space_record_oplog WHERE space_id = ? AND author_did = ? ",
        "",
        "ORDER BY rev, idx LIMIT ?",
        space_id,
        author_did,
        cursor,
        limit,
    )
}

/// A statement that reads a page of a repo's log, each operation with the record that it wrote.
///
/// An operation has a record only while the record is still in the version that the operation
/// wrote: an update that was itself replaced has none, and neither has a delete.
pub fn list_ops_with_values(
    space_id: &str,
    author_did: &str,
    cursor: Option<&OpCursor>,
    limit: i64,
) -> (r: Statement)
    ensures
        r@ == page_query(
            "SELECT o.id, o.space_id, o.author_did, o.rev, o.idx, o.action, o.collection, o.rkey, o.cid, o.prev, o.created_at, r.record FROM happyview_space_record_oplog o LEFT JOIN happyview_space_records r ON r.space_id = o.space_id AND r.author_did = o.author_did AND r.collection = o.collection AND r.rkey = o.rkey AND r.cid = o.cid WHERE o.space_id = ? AND o.author_did = ? "@,
            "o."@,
            "ORDER BY o.rev, o.idx LIMIT ?"@,
            space_id@,
            author_did@,
            cursor_position(cursor),
            limit,
        ),
{
    page_statement(
        "SELECT o.id, o.space_id, o.author_did, o.rev, o.idx, o.action, o.collection, o.rkey, o.cid, o.prev, o.created_at, r.record FROM happyview_space_record_oplog o LEFT JOIN happyview_space_records r ON r.space_id = o.space_id AND r.author_did = o.author_did AND r.collection = o.collection AND r.rkey = o.rkey AND r.cid = o.cid WHERE o.space_id = ? AND o.author_did = ? ",
        "o.",
        "ORDER BY o.rev, o.idx LIMIT ?",
        space_id,
        author_did,
        cursor,
        limit,
    )
}

/// A row of the log as the database hands it over, with the text of a record where one was asked
/// for and is there.
#[derive(Debug)]
pub struct OplogRow {
    pub id: String,
    pub space_id: String,
    pub author_did: String,
    pub rev: String,
    pub idx: i32,
    pub action: String,
    pub collection: String,
    pub rkey: String,
    pub cid: Option<String>,
    pub prev: Option<String>,
    pub created_at: String,
    pub record: Option<String>,
}

/// The operation that a row stands for, or what is wrong with the row.
pub open spec fn decoded(row: OplogRow) -> Result<EntryView, ErrorView> {
    match OplogAction::named(row.action@) {
        None => Err(ErrorView::Internal("invalid oplog action: "@ + row.action@)),
        Some(action) => {
            let entry = EntryView {
                id: row.id@,
                space_id: row.space_id@,
                author_did: row.author_did@,
                rev: row.rev@,
                idx: row.idx,
                action,
                collection: row.collection@,
                rkey: row.rkey@,
                cid: option_text(row.cid),
                prev: option_text(row.prev),
                value: None,
                created_at: row.created_at@,
            };
            match option_text(row.record) {
                None => Ok(entry),
                Some(text) => match json_parse(text) {
                    Ok(value) => Ok(EntryView { value: Some(value), ..entry }),
                    Err(e) => Err(ErrorView::Internal("failed to parse record value: "@ + e)),
                },
            }
        },
    }
}

/// The operations that rows stand for, in order, or what is wrong with the first row at fault.
pub open spec fn decoded_all(rows: Seq<OplogRow>) -> Result<Seq<EntryView>, ErrorView>
    decreases rows.len(),
{
    if rows.len() == 0 {
        Ok(Seq::empty())
    } else {
        match decoded_all(rows.drop_last()) {
            Err(e) => Err(e),
            Ok(front) => match decoded(rows.last()) {
                Err(e) => Err(e),
                Ok(entry) => Ok(front.push(entry)),
            },
        }
    }
}

fn decode(row: &OplogRow) -> (r: Result<OplogEntry, AppError>)
    ensures
        match r {
            Ok(e) => decoded(*row) == Ok::<EntryView, ErrorView>(e@),
            Err(e) => decoded(*row) == Err::<EntryView, ErrorView>(e@),
        },
{
    match OplogAction::parse(row.action.as_str()) {
        None => {
            let mut m = "invalid oplog action: ".to_owned();
            m.append(row.action.as_str());
            Err(AppError::Internal(m))
        },
        Some(action) => {
            let value = match &row.record {
                None => None,
                Some(text) => match parse_json(text.as_str()) {
                    Ok(value) => Some(value),
                    Err(e) => {
                        let mut m = "failed to parse record value: ".to_owned();
                        m.append(e.as_str());
                        return Err(AppError::Internal(m));
                    },
                },
            };
            Ok(
                OplogEntry {
                    id: row.id.clone(),
                    space_id: row.space_id.clone(),
                    author_did: row.author_did.clone(),
                    rev: row.rev.clone(),
                    idx: row.idx,
                    action,
                    collection: row.collection.clone(),
                    rkey: row.rkey.clone(),
                    cid: row.cid.clone(),
                    prev: row.prev.clone(),
                    value,
                    created_at: row.created_at.clone(),
                },
            )
        },
    }
}

/// Turns the rows of a page into operations.
pub fn decode_rows(rows: &Vec<OplogRow>) -> (r: Result<Vec<OplogEntry>, AppError>)
    ensures
        match r {
            Ok(entries) => decoded_all(rows@) == Ok::<Seq<EntryView>, ErrorView>(
                entry_views(entries@),
            ),
            Err(e) => decoded_all(rows@) == Err::<Seq<EntryView>, ErrorView>(e@),
        },
{
    let mut out: Vec<OplogEntry> = Vec::new();
    let mut i: usize = 0;
    assert(rows@.take(0) =~= Seq::<OplogRow>::empty());
    assert(entry_views(out@) =~= Seq::<EntryView>::empty());
    while i < rows.len()
        invariant
            i <= rows.len(),
            decoded_all(rows@.take(i as int)) == Ok::<Seq<EntryView>, ErrorView>(entry_views(out@)),
        decreases rows.len() - i,
    {
        let ghost next = rows@.take(i + 1);
        assert(next.drop_last() =~= rows@.take(i as int));
        assert(next.last() == rows@[i as int]);
        match decode(&rows[i]) {
            Ok(e) => {
                let ghost before = out@;
                out.push(e);
                assert(entry_views(out@) =~= entry_views(before).push(e@));
            },
            Err(e) => {
                proof {
                    lemma_decoded_prefix(rows@, i as int, e@);
                }
                return Err(e);
            },
        }
        i = i + 1;
    }
    assert(rows@.take(rows@.len() as int) =~= rows@);
    Ok(out)
}

/// Rows behind the first one at fault do not matter.
proof fn lemma_decoded_prefix(rows: Seq<OplogRow>, i: int, e: ErrorView)
    requires
        0 <= i < rows.len(),
        decoded_all(rows.take(i + 1)) == Err::<Seq<EntryView>, ErrorView>(e),
    ensures
        decoded_all(rows) == Err::<Seq<EntryView>, ErrorView>(e),
    decreases rows.len(),
{
    if i + 1 == rows.len() {
        assert(rows.take(i + 1) =~= rows);
    } else {
        assert(rows.drop_last().take(i + 1) =~= rows.take(i + 1));
        lemma_decoded_prefix(rows.drop_last(), i, e);
    }
}

/// The deletion of what is older than the retention, as seen at a clock reading. The newest revision
/// of each repo stays.
pub open spec fn prune_query(secs: u64, nanos: u32, retention_days: i64) -> StatementView {
    StatementView {
        sql: "DELETE FROM happyview_space_record_oplog WHERE created_at < ? AND rev < (SELECT MAX(o2.rev) FROM happyview_space_record_oplog o2 WHERE o2.space_id = happyview_space_record_oplog.space_id AND o2.author_did = happyview_space_record_oplog.author_did)"@,
        params: seq![ParamView::Text(instant_text(secs - retention_days * 86_400, nanos))],
    }
}

/// Whether the calendar has the clock's second, and the one that lies the retention before it.
pub open spec fn has_cutoff(secs: u64, retention_days: i64) -> bool {
    secs <= LAST_SECOND && FIRST_SECOND <= secs - retention_days * 86_400 <= LAST_SECOND
}

/// A statement that deletes what is older than the retention, as seen at a clock reading. There is
/// none where the calendar ends before the retention does.
pub fn prune_at(secs: u64, nanos: u32, retention_days: i64) -> (r: Option<Statement>)
    requires
        nanos < 1_000_000_000,
    ensures
        r is Some <==> has_cutoff(secs, retention_days),
        r matches Some(s) ==> s@ == prune_query(secs, nanos, retention_days),
{
    let cutoff: i128 = secs as i128 - retention_days as i128 * 86_400;
    if secs > LAST_SECOND as u64 || cutoff < FIRST_SECOND as i128 || cutoff > LAST_SECOND as i128 {
        return None;
    }
    let text = instant_string(cutoff as i64, nanos);
    let statement = Statement::new(
        "DELETE FROM happyview_space_record_oplog WHERE created_at < ? AND rev < (SELECT MAX(o2.rev) FROM happyview_space_record_oplog o2 WHERE o2.space_id = happyview_space_record_oplog.space_id AND o2.author_did = happyview_space_record_oplog.author_did)",
    ).text(text.as_str());
    Some(statement)
}

/// A statement that deletes what is older than the retention by now. There is one for every retention
/// that the calendar reaches back to from the Unix epoch, and none where the calendar ends before the
/// retention does.
pub fn prune(retention_days: i64) -> (r: Option<Statement>)
    ensures
        0 <= retention_days && FIRST_SECOND <= -retention_days * 86_400 ==> r is Some,
        exists|secs: u64, nanos: u32|
            secs <= LAST_SECOND && nanos < 1_000_000_000 && (match r {
                Some(s) => has_cutoff(secs, retention_days) && s@ == #[trigger] prune_query(
                    secs,
                    nanos,
                    retention_days,
                ),
                None => !has_cutoff(secs, retention_days),
            }),
{
    let (secs, nanos) = now();
    let secs: u64 = within_calendar(secs) as u64;
    let ghost query = prune_query(secs, nanos, retention_days);
    prune_at(secs, nanos, retention_days)
}

/// How many seconds to wait before each round of pruning, or nothing where the log is kept for
/// good.
pub fn cleanup_interval(retention_days: i64) -> (r: Option<u64>)
    ensures
        r == (if retention_days > 0 { Some(3600u64) } else { None }),
{
    if retention_days <= 0 {
        None
    } else {
        Some(3600)
    }
}

/// A revision that the written form of a cursor can carry: one without a colon, and without white
/// space in front. Every TID is one.
pub open spec fn is_wire_rev(rev: Seq<char>) -> bool {
    !rev.contains(':') && (rev.len() > 0 ==> !is_white_space(rev[0]))
}

/// A cursor is read back from its written form.
pub proof fn law_cursor_round_trip(rev: Seq<char>, idx: i32)
    requires
        is_wire_rev(rev),
    ensures
        position_of(wire_text(rev, idx)) == Some((rev, idx)),
{
    reveal_strlit(":");
    let n = int_text(idx as int);
    let s = wire_text(rev, idx);
    lemma_int_text(idx as int);
    lemma_number_ends_in_digit(idx as int);
    assert(s[rev.len() as int] == ':');
    assert(rev.len() > 0 ==> s[0] == rev[0]);
    assert(s.last() == n.last());
    assert(trimmed_start(s) == s);
    assert(trimmed_end(s) == s);
    lemma_span_before(s, ':');
    let k = span_before(s, ':') as int;
    if k < rev.len() {
        assert(rev[k] == s[k]);
        assert(rev.contains(':'));
    }
    assert(k == rev.len());
    assert(s.take(k) =~= rev);
    assert(s.skip(k + 1) =~= n);
}

proof fn lemma_number_ends_in_digit(i: int)
    ensures
        int_text(i).len() > 0,
        '0' <= int_text(i).last() <= '9',
{
    let magnitude = crate::text::nat_text((if i < 0 { -i } else { i }) as nat);
    lemma_nat_text((if i < 0 { -i } else { i }) as nat);
    assert(int_text(i).last() == magnitude[magnitude.len() - 1]);
}

/// A revision alone is a cursor behind every operation of that revision.
pub proof fn law_bare_revision_covers_it_all(rev: Seq<char>, idx: i32)
    requires
        rev.len() > 0,
        is_wire_rev(rev),
        !is_white_space(rev.last()),
    ensures
        position_of(rev) == Some((rev, i32::MAX)),
        !position_less(position_of(rev)->0, (rev, idx)),
{
    assert(trimmed_start(rev) == rev);
    lemma_span_before(rev, ':');
    lemma_text_order(rev, rev, rev);
}

/// Positions are strictly ordered: none precedes itself, and precedence is transitive and total.
pub proof fn law_positions_are_ordered(a: Position, b: Position, c: Position)
    ensures
        !position_less(a, a),
        position_less(a, b) && position_less(b, c) ==> position_less(a, c),
        a == b || position_less(a, b) || position_less(b, a),
{
    lemma_text_order(a.0, b.0, c.0);
    lemma_text_order(b.0, c.0, a.0);
}

/// A log in order: each operation stands strictly before those behind it.
pub open spec fn is_log(log: Seq<EntryView>) -> bool {
    forall|i: int, j: int|
        0 <= i < j < log.len() ==> position_less(
            entry_position(#[trigger] log[i]),
            entry_position(#[trigger] log[j]),
        )
}

/// The operations of a log that lie strictly behind a cursor, or all of it without one.
pub open spec fn behind(log: Seq<EntryView>, cursor: Option<Position>) -> Seq<EntryView> {
    match cursor {
        None => log,
        Some(c) => log.filter(|e: EntryView| position_less(c, entry_position(e))),
    }
}

/// A page: the first operations behind a cursor, up to a limit.
pub open spec fn page(log: Seq<EntryView>, cursor: Option<Position>, limit: nat) -> Seq<EntryView> {
    let rest = behind(log, cursor);
    if limit < rest.len() {
        rest.take(limit as int)
    } else {
        rest
    }
}

/// Where to read on from: behind the last operation that was handed over, or, with none, from where
/// the reader already stands.
pub open spec fn next_position(ops: Seq<EntryView>, cursor: Option<Position>) -> Option<Position> {
    if ops.len() > 0 {
        Some(entry_position(ops.last()))
    } else {
        cursor
    }
}

/// In a log in order, what lies behind a cursor is a tail of the log.
proof fn lemma_behind_is_tail(log: Seq<EntryView>, c: Position, k: int)
    requires
        0 <= k <= log.len(),
        forall|i: int| 0 <= i < k ==> !position_less(c, entry_position(#[trigger] log[i])),
        forall|i: int| k <= i < log.len() ==> position_less(c, entry_position(#[trigger] log[i])),
    ensures
        behind(log, Some(c)) == log.skip(k),
{
    lemma_filter_is_tail(log, |e: EntryView| position_less(c, entry_position(e)), k);
}

/// Where the operations that meet a condition are those from a position on, they are a tail of the log.
proof fn lemma_filter_is_tail(log: Seq<EntryView>, p: spec_fn(EntryView) -> bool, k: int)
    requires
        0 <= k <= log.len(),
        forall|i: int| 0 <= i < k ==> !p(#[trigger] log[i]),
        forall|i: int| k <= i < log.len() ==> p(#[trigger] log[i]),
    ensures
        log.filter(p) == log.skip(k),
    decreases log.len(),
{
    reveal(Seq::filter);
    if log.len() > 0 {
        let front = log.drop_last();
        assert(log.last() == log[log.len() - 1]);
        if k == log.len() {
            lemma_filter_is_tail(front, p, k - 1);
            assert(log.skip(k) =~= front.skip(k - 1));
        } else {
            lemma_filter_is_tail(front, p, k);
            assert(log.skip(k) =~= front.skip(k).push(log.last()));
        }
    } else {
        assert(log.skip(k) =~= log.filter(p));
    }
}

/// Where the tail behind a cursor begins.
proof fn lemma_tail_start(log: Seq<EntryView>, c: Position) -> (k: int)
    requires
        is_log(log),
    ensures
        0 <= k <= log.len(),
        forall|i: int| 0 <= i < k ==> !position_less(c, entry_position(#[trigger] log[i])),
        forall|i: int| k <= i < log.len() ==> position_less(c, entry_position(#[trigger] log[i])),
    decreases log.len(),
{
    if log.len() == 0 {
        0
    } else {
        let front = log.drop_last();
        assert(is_log(front)) by {
            assert forall|i: int, j: int| 0 <= i < j < front.len() implies position_less(
                entry_position(#[trigger] front[i]),
                entry_position(#[trigger] front[j]),
            ) by {
                assert(front[i] == log[i] && front[j] == log[j]);
            }
        }
        let k = lemma_tail_start(front, c);
        assert forall|i: int| 0 <= i < k implies !position_less(c, entry_position(#[trigger] log[i]))
            by {
            assert(log[i] == front[i]);
        }
        assert forall|i: int| k <= i < front.len() implies position_less(
            c,
            entry_position(#[trigger] log[i]),
        ) by {
            assert(log[i] == front[i]);
        }
        if k < front.len() {
            let last = log.len() - 1;
            assert(position_less(entry_position(log[k]), entry_position(log[last])));
            law_positions_are_ordered(c, entry_position(log[k]), entry_position(log[last]));
            k
        } else if position_less(c, entry_position(log[log.len() - 1])) {
            k
        } else {
            k + 1
        }
    }
}

/// A log stays in order when the writes of a batch are appended to it, numbered in turn under one
/// revision that sorts behind all that came before.
pub proof fn law_log_stays_in_order(log: Seq<EntryView>, rev: Seq<char>, entries: Seq<EntryView>)
    requires
        is_log(log),
        entries.len() <= i32::MAX,
        forall|i: int| 0 <= i < log.len() ==> text_less((#[trigger] log[i]).rev, rev),
        forall|i: int|
            0 <= i < entries.len() ==> entry_position(#[trigger] entries[i]) == (rev, i as i32),
    ensures
        is_log(log + entries),
{
    let all = log + entries;
    assert forall|i: int, j: int| 0 <= i < j < all.len() implies position_less(
        entry_position(#[trigger] all[i]),
        entry_position(#[trigger] all[j]),
    ) by {
        if j < log.len() {
            assert(all[i] == log[i] && all[j] == log[j]);
        } else if i < log.len() {
            assert(all[i] == log[i] && all[j] == entries[j - log.len()]);
        } else {
            assert(all[i] == entries[i - log.len()] && all[j] == entries[j - log.len()]);
        }
    }
}

/// What is recorded under the revision that follows a log's newest one is visible to everyone: the log
/// stays in order, and a reader who had come to its end is handed exactly the new operations. A
/// revision that sorted lower would hide them from every such reader.
pub proof fn law_next_revision_is_visible(
    log: Seq<EntryView>,
    offered: Seq<char>,
    entries: Seq<EntryView>,
)
    requires
        is_log(log),
        log.len() > 0,
        can_be_followed(log.last().rev),
        entries.len() <= i32::MAX,
        forall|i: int|
            0 <= i < entries.len() ==> entry_position(#[trigger] entries[i]) == (
                following(offered, Some(log.last().rev)),
                i as i32,
            ),
    ensures
        is_log(log + entries),
        behind(log + entries, Some(entry_position(log.last()))) == entries,
{
    let newest = log.last().rev;
    let rev = following(offered, Some(newest));
    law_next_sorts_after(offered, newest);
    assert forall|i: int| 0 <= i < log.len() implies text_less((#[trigger] log[i]).rev, rev) by {
        if i < log.len() - 1 {
            assert(position_less(entry_position(log[i]), entry_position(log[log.len() - 1])));
            lemma_text_order(log[i].rev, newest, rev);
        }
    }
    law_log_stays_in_order(log, rev, entries);
    let all = log + entries;
    let n = log.len() as int;
    let c = entry_position(log.last());
    assert forall|i: int| 0 <= i < n implies !position_less(c, entry_position(#[trigger] all[i])) by {
        assert(all[i] == log[i]);
        law_positions_are_ordered(c, entry_position(log[i]), c);
        if i < n - 1 {
            assert(position_less(entry_position(log[i]), entry_position(log[n - 1])));
        }
    }
    assert forall|i: int| n <= i < all.len() implies position_less(
        c,
        entry_position(#[trigger] all[i]),
    ) by {
        assert(all[i] == entries[i - n]);
    }
    lemma_behind_is_tail(all, c, n);
    assert(all.skip(n) =~= entries);
}

/// Reading on from where a page ended skips nothing and repeats nothing, also where the page ended
/// inside a revision.
pub proof fn law_pages_join(log: Seq<EntryView>, cursor: Option<Position>, limit: nat)
    requires
        is_log(log),
    ensures
        page(log, cursor, limit) + behind(log, next_position(page(log, cursor, limit), cursor))
            == behind(log, cursor),
{
    let ops = page(log, cursor, limit);
    let rest = behind(log, cursor);
    if ops.len() > 0 {
        let k = match cursor {
            None => 0,
            Some(c) => {
                let k = lemma_tail_start(log, c);
                lemma_behind_is_tail(log, c, k);
                k
            },
        };
        assert(rest =~= log.skip(k));
        let n = ops.len() as int;
        let last = entry_position(log[k + n - 1]);
        assert(ops.last() == log[k + n - 1]);
        assert forall|i: int| 0 <= i < k + n implies !position_less(
            last,
            entry_position(#[trigger] log[i]),
        ) by {
            let at = entry_position(log[i]);
            law_positions_are_ordered(last, at, last);
            if i < k + n - 1 {
                assert(position_less(at, entry_position(log[k + n - 1])));
            }
        }
        lemma_behind_is_tail(log, last, k + n);
        assert(ops + log.skip(k + n) =~= rest);
    } else {
        assert(ops + rest =~= rest);
    }
}

/// Pages add up: a page, and the page that is read on from where it ended, are together the page that is
/// as long as both.
pub proof fn law_pages_add_up(log: Seq<EntryView>, cursor: Option<Position>, n: nat, m: nat)
    requires
        is_log(log),
    ensures
        page(log, cursor, n) + page(log, next_position(page(log, cursor, n), cursor), m) == page(
            log,
            cursor,
            n + m,
        ),
{
    law_pages_join(log, cursor, n);
    let first = page(log, cursor, n);
    let rest = behind(log, next_position(first, cursor));
    assert(rest =~= (first + rest).skip(first.len() as int));
    assert(first + page(log, next_position(first, cursor), m) =~= page(log, cursor, n + m));
}

/// A reader who has come to the end is handed nothing, and stays there.
pub proof fn law_caught_up_stays(log: Seq<EntryView>, limit: nat)
    requires
        is_log(log),
        log.len() > 0,
    ensures
        ({
            let head = Some(entry_position(log.last()));
            &&& page(log, head, limit).len() == 0
            &&& next_position(page(log, head, limit), head) == head
            &&& servable(Some(entry_position(log[0])), head->0)
        }),
{
    let c = entry_position(log.last());
    assert forall|i: int| 0 <= i < log.len() implies !position_less(
        c,
        entry_position(#[trigger] log[i]),
    ) by {
        law_positions_are_ordered(c, entry_position(log[i]), c);
        if i < log.len() - 1 {
            assert(position_less(entry_position(log[i]), entry_position(log[log.len() - 1])));
        }
    }
    lemma_behind_is_tail(log, c, log.len() as int);
    assert(log.skip(log.len() as int).len() == 0);
    assert(!position_less(c, entry_position(log[0])));
}

/// A cursor that can be served misses nothing: of a log that lost its oldest operations, it is
/// handed all that it would have been handed before.
pub proof fn law_served_cursor_misses_nothing(log: Seq<EntryView>, lost: int, cursor: Position)
    requires
        is_log(log),
        0 <= lost < log.len(),
        servable(Some(entry_position(log[lost])), cursor),
    ensures
        behind(log.skip(lost), Some(cursor)) == behind(log, Some(cursor)),
{
    let kept = log.skip(lost);
    let k = lemma_tail_start(log, cursor);
    if k < lost {
        assert(position_less(cursor, entry_position(log[lost])));
    }
    if k == lost {
        assert(position_less(cursor, entry_position(log[lost])));
    }
    lemma_behind_is_tail(log, cursor, k);
    assert forall|i: int| 0 <= i < k - lost implies !position_less(
        cursor,
        entry_position(#[trigger] kept[i]),
    ) by {
        assert(kept[i] == log[i + lost]);
    }
    assert forall|i: int| k - lost <= i < kept.len() implies position_less(
        cursor,
        entry_position(#[trigger] kept[i]),
    ) by {
        assert(kept[i] == log[i + lost]);
    }
    lemma_behind_is_tail(kept, cursor, k - lost);
    assert(kept.skip(k - lost) =~= log.skip(k));
}

/// A log with nothing in it can vouch for no cursor.
pub proof fn law_empty_log_serves_none(cursor: Position)
    ensures
        !servable(None, cursor),
{
}

/// Whether pruning removes an operation from a log: it was written before a moment, and its revision is
/// not the newest.
pub open spec fn is_removed(log: Seq<EntryView>, cutoff: Seq<char>, e: EntryView) -> bool {
    text_less(e.created_at, cutoff) && text_less(e.rev, log.last().rev)
}

/// What a repo's log holds once everything written before a moment has been deleted, but for the
/// newest revision.
pub open spec fn pruned(log: Seq<EntryView>, cutoff: Seq<char>) -> Seq<EntryView> {
    log.filter(|e: EntryView| !is_removed(log, cutoff, e))
}

/// Pruning keeps a repo's newest operation, whatever its age: the head does not move, and a reader
/// who had come to it can still be served.
pub proof fn law_pruning_keeps_the_head(log: Seq<EntryView>, cutoff: Seq<char>)
    requires
        is_log(log),
        log.len() > 0,
    ensures
        pruned(log, cutoff).len() > 0,
        pruned(log, cutoff).last() == log.last(),
        servable(
            Some(entry_position(pruned(log, cutoff)[0])),
            entry_position(log.last()),
        ),
{
    reveal(Seq::filter);
    let keep = |e: EntryView| !is_removed(log, cutoff, e);
    let newest = log.last();
    lemma_text_order(newest.rev, newest.rev, newest.rev);
    assert(keep(newest));
    let kept = pruned(log, cutoff);
    assert(kept == log.drop_last().filter(keep).push(newest));
    log.lemma_filter_contains_rev(keep, kept[0]);
    let i = choose|i: int| 0 <= i < log.len() && log[i] == kept[0];
    law_positions_are_ordered(entry_position(newest), entry_position(log[i]), entry_position(newest));
    if i < log.len() - 1 {
        assert(position_less(entry_position(log[i]), entry_position(log[log.len() - 1])));
    }
}

/// Which operations meet a condition depends on the condition alone.
proof fn lemma_filter_same(
    log: Seq<EntryView>,
    p: spec_fn(EntryView) -> bool,
    q: spec_fn(EntryView) -> bool,
)
    requires
        forall|i: int| 0 <= i < log.len() ==> p(#[trigger] log[i]) == q(log[i]),
    ensures
        log.filter(p) == log.filter(q),
    decreases log.len(),
{
    reveal(Seq::filter);
    if log.len() > 0 {
        let front = log.drop_last();
        assert(log.last() == log[log.len() - 1]);
        assert forall|i: int| 0 <= i < front.len() implies p(#[trigger] front[i]) == q(front[i]) by {
            assert(front[i] == log[i]);
        }
        lemma_filter_same(front, p, q);
    }
}

/// Two conditions can be asked in either order.
proof fn lemma_filter_swap(
    log: Seq<EntryView>,
    p: spec_fn(EntryView) -> bool,
    q: spec_fn(EntryView) -> bool,
)
    ensures
        log.filter(p).filter(q) == log.filter(q).filter(p),
    decreases log.len(),
{
    reveal(Seq::filter);
    if log.len() > 0 {
        let front = log.drop_last();
        let last = log.last();
        lemma_filter_swap(front, p, q);
        assert(front.filter(p).push(last).drop_last() =~= front.filter(p));
        assert(front.filter(q).push(last).drop_last() =~= front.filter(q));
    }
}

/// What is left of a log in order is in order.
proof fn lemma_filter_is_log(log: Seq<EntryView>, p: spec_fn(EntryView) -> bool)
    requires
        is_log(log),
    ensures
        is_log(log.filter(p)),
    decreases log.len(),
{
    reveal(Seq::filter);
    if log.len() > 0 {
        let front = log.drop_last();
        let last = log[log.len() - 1];
        assert forall|i: int, j: int| 0 <= i < j < front.len() implies position_less(
            entry_position(#[trigger] front[i]),
            entry_position(#[trigger] front[j]),
        ) by {
            assert(front[i] == log[i] && front[j] == log[j]);
        }
        lemma_filter_is_log(front, p);
        let left = front.filter(p);
        let all = log.filter(p);
        assert forall|i: int, j: int| 0 <= i < j < all.len() implies position_less(
            entry_position(#[trigger] all[i]),
            entry_position(#[trigger] all[j]),
        ) by {
            assert(all[i] == left[i]);
            if j < left.len() {
                assert(all[j] == left[j]);
            } else {
                front.lemma_filter_contains_rev(p, left[i]);
                let k = choose|k: int| 0 <= k < front.len() && front[k] == left[i];
                assert(log[k] == left[i] && all[j] == last);
            }
        }
    }
}

/// What meets a condition and what does not are together as many as all.
proof fn lemma_filter_split(log: Seq<EntryView>, p: spec_fn(EntryView) -> bool)
    ensures
        log.filter(p).len() + log.filter(|e: EntryView| !p(e)).len() == log.len(),
    decreases log.len(),
{
    reveal(Seq::filter);
    if log.len() > 0 {
        lemma_filter_split(log.drop_last(), p);
    }
}

/// Pruning removes what is older than a moment and not of the newest revision, and nothing else: every
/// other operation stays as it is, in its order.
pub proof fn law_pruning_removes_only_the_old(log: Seq<EntryView>, cutoff: Seq<char>)
    requires
        is_log(log),
    ensures
        forall|e: EntryView| #[trigger]
            pruned(log, cutoff).contains(e) <==> log.contains(e) && !is_removed(log, cutoff, e),
        is_log(pruned(log, cutoff)),
        pruned(log, cutoff).len() == log.len() - log.filter(
            |e: EntryView| is_removed(log, cutoff, e),
        ).len(),
{
    let keep = |e: EntryView| !is_removed(log, cutoff, e);
    let gone = |e: EntryView| is_removed(log, cutoff, e);
    let kept = pruned(log, cutoff);
    assert forall|e: EntryView| #[trigger] kept.contains(e) implies log.contains(e) && !is_removed(
        log,
        cutoff,
        e,
    ) by {
        log.lemma_filter_contains_rev(keep, e);
        let i = choose|i: int| 0 <= i < kept.len() && kept[i] == e;
        log.lemma_filter_pred(keep, i);
    }
    assert forall|e: EntryView| log.contains(e) && !is_removed(log, cutoff, e) implies #[trigger]
    kept.contains(e) by {
        let i = choose|i: int| 0 <= i < log.len() && log[i] == e;
        log.lemma_filter_contains(keep, i);
    }
    lemma_filter_is_log(log, keep);
    lemma_filter_split(log, gone);
    lemma_filter_same(log, keep, |e: EntryView| !gone(e));
}

/// The first operation from a position on that pruning keeps.
proof fn lemma_first_kept(log: Seq<EntryView>, cutoff: Seq<char>, from: int) -> (k: int)
    requires
        0 <= from < log.len(),
        forall|i: int| 0 <= i < from ==> is_removed(log, cutoff, #[trigger] log[i]),
    ensures
        from <= k < log.len(),
        forall|i: int| 0 <= i < k ==> is_removed(log, cutoff, #[trigger] log[i]),
        !is_removed(log, cutoff, log[k]),
    decreases log.len() - from,
{
    if is_removed(log, cutoff, log[from]) {
        let newest = log.last().rev;
        lemma_text_order(newest, newest, newest);
        lemma_first_kept(log, cutoff, from + 1)
    } else {
        from
    }
}

/// Whether pruning takes operations from the front of a log only: none that it removes stands behind one
/// that it keeps.
pub open spec fn loses_the_front(log: Seq<EntryView>, cutoff: Seq<char>) -> bool {
    forall|i: int, j: int|
        0 <= i < j < log.len() && is_removed(log, cutoff, #[trigger] log[j]) ==> is_removed(
            log,
            cutoff,
            #[trigger] log[i],
        )
}

/// Where the clock never stepped back along a log, pruning takes operations from its front only.
pub proof fn law_time_in_order_loses_the_front(log: Seq<EntryView>, cutoff: Seq<char>)
    requires
        is_log(log),
        forall|i: int, j: int|
            0 <= i < j < log.len() ==> !text_less(
                (#[trigger] log[j]).created_at,
                (#[trigger] log[i]).created_at,
            ),
    ensures
        loses_the_front(log, cutoff),
{
    assert forall|i: int, j: int|
        0 <= i < j < log.len() && is_removed(log, cutoff, #[trigger] log[j]) implies is_removed(
        log,
        cutoff,
        #[trigger] log[i],
    ) by {
        assert(position_less(entry_position(log[i]), entry_position(log[j])));
        assert(!text_less(log[j].created_at, log[i].created_at));
        lemma_text_order(log[i].rev, log[j].rev, log.last().rev);
        lemma_text_order(log[i].created_at, log[j].created_at, cutoff);
    }
}

/// A cursor that can be served after pruning misses nothing: it is handed all that it would have been
/// handed before. An operation that was removed behind one that is kept would be missed.
pub proof fn law_pruned_log_misses_nothing(
    log: Seq<EntryView>,
    cutoff: Seq<char>,
    cursor: Position,
)
    requires
        is_log(log),
        log.len() > 0,
        loses_the_front(log, cutoff),
        servable(Some(entry_position(pruned(log, cutoff)[0])), cursor),
    ensures
        behind(pruned(log, cutoff), Some(cursor)) == behind(log, Some(cursor)),
{
    let keep = |e: EntryView| !is_removed(log, cutoff, e);
    let k = lemma_first_kept(log, cutoff, 0);
    assert forall|i: int| k <= i < log.len() implies keep(#[trigger] log[i]) by {
        if i > k && is_removed(log, cutoff, log[i]) {
            assert(is_removed(log, cutoff, log[k]));
        }
    }
    lemma_filter_is_tail(log, keep, k);
    assert(log.skip(k)[0] == log[k]);
    law_served_cursor_misses_nothing(log, k, cursor);
}

/// Whether two operations belong to one repo.
pub open spec fn is_same_repo(a: EntryView, b: EntryView) -> bool {
    a.space_id == b.space_id && a.author_did == b.author_did
}

/// The operations of one repo among the rows of all repos.
pub open spec fn repo_of(
    rows: Seq<EntryView>,
    space_id: Seq<char>,
    author_did: Seq<char>,
) -> Seq<EntryView> {
    rows.filter(|e: EntryView| e.space_id == space_id && e.author_did == author_did)
}

/// Whether an operation is one that the rows of its own repo have a newer revision than.
pub open spec fn is_outdated(rows: Seq<EntryView>, e: EntryView) -> bool {
    exists|i: int|
        0 <= i < rows.len() && is_same_repo(#[trigger] rows[i], e) && text_less(e.rev, rows[i].rev)
}

/// The rows of all repos once everything written before a moment has been deleted, but for the newest
/// revision of each repo.
pub open spec fn pruned_rows(rows: Seq<EntryView>, cutoff: Seq<char>) -> Seq<EntryView> {
    rows.filter(|e: EntryView| !(text_less(e.created_at, cutoff) && is_outdated(rows, e)))
}

/// Pruning the rows of all repos at once prunes each repo's log by itself.
pub proof fn law_each_repo_is_pruned_by_itself(
    rows: Seq<EntryView>,
    cutoff: Seq<char>,
    space_id: Seq<char>,
    author_did: Seq<char>,
)
    requires
        is_log(repo_of(rows, space_id, author_did)),
    ensures
        repo_of(pruned_rows(rows, cutoff), space_id, author_did) == pruned(
            repo_of(rows, space_id, author_did),
            cutoff,
        ),
{
    let mine = |e: EntryView| e.space_id == space_id && e.author_did == author_did;
    let stays = |e: EntryView| !(text_less(e.created_at, cutoff) && is_outdated(rows, e));
    let log = repo_of(rows, space_id, author_did);
    let keep = |e: EntryView| !is_removed(log, cutoff, e);
    lemma_filter_swap(rows, stays, mine);
    assert forall|j: int| 0 <= j < log.len() implies stays(#[trigger] log[j]) == keep(log[j]) by {
        let e = log[j];
        let n = log.len() - 1;
        rows.lemma_filter_pred(mine, j);
        rows.lemma_filter_pred(mine, n);
        if is_outdated(rows, e) {
            let i = choose|i: int|
                0 <= i < rows.len() && is_same_repo(#[trigger] rows[i], e) && text_less(
                    e.rev,
                    rows[i].rev,
                );
            rows.lemma_filter_contains(mine, i);
            let m = choose|m: int| 0 <= m < log.len() && log[m] == rows[i];
            if m < n {
                assert(position_less(entry_position(log[m]), entry_position(log[n])));
                lemma_text_order(e.rev, log[m].rev, log[n].rev);
            }
        }
        if text_less(e.rev, log[n].rev) {
            assert(log.contains(log[n]));
            rows.lemma_filter_contains_rev(mine, log[n]);
            let i = choose|i: int| 0 <= i < rows.len() && rows[i] == log[n];
            assert(is_same_repo(rows[i], e));
        }
    }
    lemma_filter_same(log, stays, keep);
}

/// A record as it is stored now: where it stands, its version, and the text of its body.
pub ghost struct LiveRecord {
    pub space_id: Seq<char>,
    pub author_did: Seq<char>,
    pub collection: Seq<char>,
    pub rkey: Seq<char>,
    pub cid: Seq<char>,
    pub body: Seq<char>,
}

/// Whether an operation went to where a record stands.
pub open spec fn is_at(e: EntryView, r: LiveRecord) -> bool {
    e.space_id == r.space_id && e.author_did == r.author_did && e.collection == r.collection
        && e.rkey == r.rkey
}

/// Whether a record is still in the version that an operation wrote.
pub open spec fn is_written_by(r: LiveRecord, e: EntryView) -> bool {
    is_at(e, r) && e.cid == Some(r.cid)
}

/// Whether no two records stand in one place.
pub open spec fn are_apart(records: Seq<LiveRecord>) -> bool {
    forall|i: int, j: int|
        0 <= i < j < records.len() ==> !((#[trigger] records[i]).space_id == (
        #[trigger] records[j]).space_id && records[i].author_did == records[j].author_did
            && records[i].collection == records[j].collection && records[i].rkey == records[j].rkey)
}

/// Whether a record is still in the version that an operation wrote, and is the one at an index.
pub open spec fn is_live_at(records: Seq<LiveRecord>, e: EntryView, i: int) -> bool {
    0 <= i < records.len() && is_written_by(records[i], e)
}

/// The body of the record that an operation wrote, while the record is still in that version.
pub open spec fn live_body(records: Seq<LiveRecord>, e: EntryView) -> Option<Seq<char>> {
    if exists|i: int| is_live_at(records, e, i) {
        Some(records[choose|i: int| is_live_at(records, e, i)].body)
    } else {
        None
    }
}

/// An operation with the value of the record that it wrote, where there is one to show.
pub open spec fn with_value(records: Seq<LiveRecord>, e: EntryView) -> EntryView {
    EntryView {
        value: match live_body(records, e) {
            Some(body) => match json_parse(body) {
                Ok(value) => Some(value),
                Err(_) => None,
            },
            None => None,
        },
        ..e
    }
}

/// Operations, each with the value of the record that it wrote.
pub open spec fn with_values(records: Seq<LiveRecord>, ops: Seq<EntryView>) -> Seq<EntryView> {
    ops.map_values(|e: EntryView| with_value(records, e))
}

/// Operations without the values of records.
pub open spec fn without_values(ops: Seq<EntryView>) -> Seq<EntryView> {
    ops.map_values(|e: EntryView| EntryView { value: None, ..e })
}

/// Whether a row holds an operation, and beside it this body of a record.
pub open spec fn is_row_of(row: OplogRow, e: EntryView, body: Option<Seq<char>>) -> bool {
    &&& row.id@ == e.id
    &&& row.space_id@ == e.space_id
    &&& row.author_did@ == e.author_did
    &&& row.rev@ == e.rev
    &&& row.idx == e.idx
    &&& row.action@ == e.action.name()
    &&& row.collection@ == e.collection
    &&& row.rkey@ == e.rkey
    &&& option_text(row.cid) == e.cid
    &&& option_text(row.prev) == e.prev
    &&& row.created_at@ == e.created_at
    &&& option_text(row.record) == body
}

/// A page that was asked for with values carries the value of a record just while the record is in the
/// version that the operation wrote: an operation whose record has another version by now has none,
/// and neither has a delete, which wrote no version. But for the values, it is the page without them,
/// and is read on from the same place.
pub proof fn law_values_follow_the_live_records(
    records: Seq<LiveRecord>,
    ops: Seq<EntryView>,
    cursor: Option<Position>,
)
    requires
        are_apart(records),
        forall|j: int| 0 <= j < records.len() ==> json_parse((#[trigger] records[j]).body) is Ok,
    ensures
        without_values(with_values(records, ops)) == without_values(ops),
        next_position(with_values(records, ops), cursor) == next_position(ops, cursor),
        forall|i: int|
            0 <= i < ops.len() ==> ((#[trigger] with_values(records, ops)[i]).value is Some <==> exists|
                j: int,
            |
                is_live_at(records, ops[i], j)),
        forall|i: int, j: int|
            0 <= i < ops.len() && 0 <= j < records.len() && is_at(
                #[trigger] ops[i],
                #[trigger] records[j],
            ) ==> with_values(records, ops)[i].value == if ops[i].cid == Some(records[j].cid) {
                Some(json_parse(records[j].body)->Ok_0)
            } else {
                None
            },
        forall|i: int|
            0 <= i < ops.len() && ops[i].cid is None ==> (#[trigger] with_values(
                records,
                ops,
            )[i]).value is None,
{
    let shown = with_values(records, ops);
    assert(without_values(shown) =~= without_values(ops));
    assert forall|i: int, j: int|
        0 <= i < ops.len() && 0 <= j < records.len() && is_at(
            #[trigger] ops[i],
            #[trigger] records[j],
        ) implies shown[i].value == if ops[i].cid == Some(records[j].cid) {
        Some(json_parse(records[j].body)->Ok_0)
    } else {
        None
    } by {
        let e = ops[i];
        if exists|k: int| is_live_at(records, e, k) {
            let k = choose|k: int| is_live_at(records, e, k);
            assert(is_at(e, records[k]));
            if k < j {
                assert(!(records[k].rkey == records[j].rkey && is_at(e, records[j])));
            } else if j < k {
                assert(!(records[j].rkey == records[k].rkey && is_at(e, records[k])));
            }
        } else {
            assert(!is_live_at(records, e, j));
        }
    }
    assert forall|i: int| 0 <= i < ops.len() implies ((#[trigger] shown[i]).value is Some <==> exists|
        j: int,
    |
        is_live_at(records, ops[i], j)) by {
        let e = ops[i];
        if exists|k: int| is_live_at(records, e, k) {
            let k = choose|k: int| is_live_at(records, e, k);
            assert(json_parse(records[k].body) is Ok);
        }
    }
}

/// The rows of a page with the bodies of records beside them are read as the operations with their
/// values.
pub proof fn law_joined_rows_are_read_with_values(
    rows: Seq<OplogRow>,
    records: Seq<LiveRecord>,
    ops: Seq<EntryView>,
)
    requires
        rows.len() == ops.len(),
        forall|j: int| 0 <= j < records.len() ==> json_parse((#[trigger] records[j]).body) is Ok,
        forall|i: int|
            0 <= i < rows.len() ==> is_row_of(
                #[trigger] rows[i],
                ops[i],
                live_body(records, ops[i]),
            ),
    ensures
        decoded_all(rows) == Ok::<Seq<EntryView>, ErrorView>(with_values(records, ops)),
    decreases rows.len(),
{
    if rows.len() > 0 {
        let front = rows.drop_last();
        let before = ops.drop_last();
        assert forall|i: int| 0 <= i < front.len() implies is_row_of(
            #[trigger] front[i],
            before[i],
            live_body(records, before[i]),
        ) by {
            assert(front[i] == rows[i] && before[i] == ops[i]);
        }
        law_joined_rows_are_read_with_values(front, records, before);
        let n = rows.len() - 1;
        let e = ops[n];
        assert(is_row_of(rows[n], e, live_body(records, e)));
        law_action_round_trip(e.action);
        if exists|k: int| is_live_at(records, e, k) {
            let k = choose|k: int| is_live_at(records, e, k);
            assert(json_parse(records[k].body) is Ok);
        }
        assert(decoded(rows[n]) == Ok::<EntryView, ErrorView>(with_value(records, e)));
        assert(with_values(records, ops) =~= with_values(records, before).push(
            with_value(records, e),
        ));
    } else {
        assert(with_values(records, ops) =~= Seq::<EntryView>::empty());
    }
}

/// A statement for a page binds the repo first and the limit last. With a cursor, it asks for what lies
/// behind it, between the two: a higher revision, or this revision and a higher index.
pub proof fn law_page_statement_binds_what_it_asks_for(
    select: Seq<char>,
    prefix: Seq<char>,
    order: Seq<char>,
    space_id: Seq<char>,
    author_did: Seq<char>,
    cursor: Position,
    limit: i64,
)
    ensures
        page_query(select, prefix, order, space_id, author_did, None, limit) == (StatementView {
            sql: select + order,
            params: seq![
                ParamView::Text(space_id),
                ParamView::Text(author_did),
                ParamView::Int(limit),
            ],
        }),
        page_query(select, prefix, order, space_id, author_did, Some(cursor), limit) == (
        StatementView {
            sql: select + ("AND (("@ + prefix + "rev > ?) OR ("@ + prefix + "rev = ? AND "@ + prefix
                + "idx > ?)) "@) + order,
            params: seq![
                ParamView::Text(space_id),
                ParamView::Text(author_did),
                ParamView::Text(cursor.0),
                ParamView::Text(cursor.0),
                ParamView::Int(cursor.1 as i64),
                ParamView::Int(limit),
            ],
        }),
{
}

/// Whether an operation lies behind what is bound to the condition behind a cursor: at a revision above
/// the first value, or at the second one and an index above the third.
pub open spec fn meets_bounds(e: EntryView, above: ParamView, at: ParamView, index: ParamView) -> bool {
    ||| above matches ParamView::Text(rev) && text_less(rev, e.rev)
    ||| at == ParamView::Text(e.rev) && (index matches ParamView::Int(i) && i < e.idx)
}

/// The operations that a statement for a page selects from the rows of all repos, each kept in its
/// order, by nothing but what is bound to it: those of the repo that the first two values name, behind
/// the cursor that the values after them state, where there are such, and as many as the last says.
pub open spec fn selected(q: StatementView, rows: Seq<EntryView>) -> Seq<EntryView> {
    let of_repo = rows.filter(
        |e: EntryView|
            ParamView::Text(e.space_id) == q.params[0] && ParamView::Text(e.author_did)
                == q.params[1],
    );
    let after = if q.params.len() == 6 {
        of_repo.filter(|e: EntryView| meets_bounds(e, q.params[2], q.params[3], q.params[4]))
    } else {
        of_repo
    };
    match q.params.last() {
        ParamView::Int(limit) => if 0 <= limit < after.len() {
            after.take(limit as int)
        } else {
            after
        },
        _ => after,
    }
}

/// What a statement for a page selects is the page of its repo behind its cursor: no operation at or
/// before the cursor, none of another repo, and all others, up to the limit.
pub proof fn law_page_statement_selects_the_page(
    select: Seq<char>,
    prefix: Seq<char>,
    order: Seq<char>,
    rows: Seq<EntryView>,
    space_id: Seq<char>,
    author_did: Seq<char>,
    cursor: Option<Position>,
    limit: i64,
)
    requires
        0 <= limit,
    ensures
        selected(page_query(select, prefix, order, space_id, author_did, cursor, limit), rows)
            == page(repo_of(rows, space_id, author_did), cursor, limit as nat),
{
    let q = page_query(select, prefix, order, space_id, author_did, cursor, limit);
    let log = repo_of(rows, space_id, author_did);
    let bound = |e: EntryView|
        ParamView::Text(e.space_id) == q.params[0] && ParamView::Text(e.author_did) == q.params[1];
    let mine = |e: EntryView| e.space_id == space_id && e.author_did == author_did;
    lemma_filter_same(rows, bound, mine);
    if let Some(c) = cursor {
        lemma_filter_same(
            log,
            |e: EntryView| meets_bounds(e, q.params[2], q.params[3], q.params[4]),
            |e: EntryView| position_less(c, entry_position(e)),
        );
    }
}

/// Positions go by their revisions, and within a revision by their indexes.
pub proof fn law_positions_go_by_revision_then_index(a: Position, b: Position)
    ensures
        text_less(a.0, b.0) ==> position_less(a, b) && !position_less(b, a),
        a.0 == b.0 ==> (position_less(a, b) <==> a.1 < b.1),
{
    lemma_text_order(a.0, b.0, a.0);
}

/// A cursor can be served by a log that begins at or before it, and by no other: not by one that begins
/// at a later revision, nor by one that begins at its revision with a later index.
pub proof fn law_cursors_are_served_from_the_floor_on(floor: Position, cursor: Position)
    ensures
        servable(Some(cursor), cursor),
        text_less(floor.0, cursor.0) ==> servable(Some(floor), cursor),
        text_less(cursor.0, floor.0) ==> !servable(Some(floor), cursor),
        floor.0 == cursor.0 ==> (servable(Some(floor), cursor) <==> floor.1 <= cursor.1),
        !servable(None, cursor),
{
    lemma_text_order(floor.0, cursor.0, floor.0);
    lemma_text_order(cursor.0, cursor.0, cursor.0);
}

/// The text that is bound to a statement at a position.
pub open spec fn bound_text(q: StatementView, i: int) -> Option<Seq<char>> {
    match q.params[i] {
        ParamView::Text(s) => Some(s),
        ParamView::OptionalText(s) => s,
        ParamView::Int(_) => None,
    }
}

/// An operation is read back as it was appended: a row that holds in each column what the appending
/// statement binds to it, and no record beside it, stands for that operation.
pub proof fn law_appended_operation_is_read_back(e: EntryView, row: OplogRow)
    requires
        row.record is None,
        Some(row.id@) == bound_text(append_query(e), 0),
        Some(row.space_id@) == bound_text(append_query(e), 1),
        Some(row.author_did@) == bound_text(append_query(e), 2),
        Some(row.rev@) == bound_text(append_query(e), 3),
        append_query(e).params[4] == ParamView::Int(row.idx as i64),
        Some(row.action@) == bound_text(append_query(e), 5),
        Some(row.collection@) == bound_text(append_query(e), 6),
        Some(row.rkey@) == bound_text(append_query(e), 7),
        option_text(row.cid) == bound_text(append_query(e), 8),
        option_text(row.prev) == bound_text(append_query(e), 9),
        Some(row.created_at@) == bound_text(append_query(e), 10),
    ensures
        append_query(e).sql
            == "INSERT INTO happyview_space_record_oplog (id, space_id, author_did, rev, idx, action, collection, rkey, cid, prev, created_at) VALUES (?, ?, ?, ?, ?, ?, ?, ?, ?, ?, ?)"@,
        append_query(e).params.len() == 11,
        row.id@ == e.id,
        row.space_id@ == e.space_id,
        row.author_did@ == e.author_did,
        row.rev@ == e.rev,
        row.idx == e.idx,
        row.collection@ == e.collection,
        row.rkey@ == e.rkey,
        option_text(row.cid) == e.cid,
        option_text(row.prev) == e.prev,
        row.created_at@ == e.created_at,
        row.action@ == (match e.action {
            OplogAction::Create => "create"@,
            OplogAction::Update => "update"@,
            OplogAction::Delete => "delete"@,
        }),
        decoded(row) == Ok::<EntryView, ErrorView>(EntryView { value: None, ..e }),
{
    law_action_round_trip(e.action);
}

/// A row is read column by column: what stands in each is found under the same name in the operation,
/// and the record beside it is its value.
pub proof fn law_rows_are_read_column_by_column(row: OplogRow)
    ensures
        decoded(row) matches Ok(e) ==> {
            &&& e.id == row.id@
            &&& e.space_id == row.space_id@
            &&& e.author_did == row.author_did@
            &&& e.rev == row.rev@
            &&& e.idx == row.idx
            &&& e.action.name() == row.action@
            &&& e.collection == row.collection@
            &&& e.rkey == row.rkey@
            &&& e.cid == option_text(row.cid)
            &&& e.prev == option_text(row.prev)
            &&& e.created_at == row.created_at@
            &&& row.record is None ==> e.value is None
            &&& row.record matches Some(text) ==> (json_parse(text@) matches Ok(value) && e.value
                == Some(value))
        },
{
}

/// A row is at fault where its action is none, or else where the record beside it is no JSON, and in no
/// other case; the fault names the action, or what is wrong with the record.
pub proof fn law_rows_at_fault_say_why(row: OplogRow)
    ensures
        ({
            let is_known = row.action@ == "create"@ || row.action@ == "update"@ || row.action@
                == "delete"@;
            &&& !is_known ==> decoded(row) == Err::<EntryView, ErrorView>(
                ErrorView::Internal("invalid oplog action: "@ + row.action@),
            )
            &&& is_known && row.record is None ==> decoded(row) is Ok
            &&& is_known && row.record is Some ==> match json_parse(row.record->0@) {
                Ok(_) => decoded(row) is Ok,
                Err(e) => decoded(row) == Err::<EntryView, ErrorView>(
                    ErrorView::Internal("failed to parse record value: "@ + e),
                ),
            }
        }),
{
}

/// Rows are read one for one and in order, and as soon as one is at fault, none of them counts: the fault
/// is that of the first.
pub proof fn law_rows_are_read_in_order(rows: Seq<OplogRow>)
    ensures
        match decoded_all(rows) {
            Ok(ops) => {
                &&& ops.len() == rows.len()
                &&& forall|i: int|
                    0 <= i < rows.len() ==> decoded(rows[i]) == Ok::<EntryView, ErrorView>(
                        #[trigger] ops[i],
                    )
            },
            Err(e) => exists|k: int|
                0 <= k < rows.len() && decoded(#[trigger] rows[k]) == Err::<EntryView, ErrorView>(e)
                    && forall|i: int| 0 <= i < k ==> decoded(#[trigger] rows[i]) is Ok,
        },
    decreases rows.len(),
{
    if rows.len() > 0 {
        let front = rows.drop_last();
        let n = front.len() as int;
        law_rows_are_read_in_order(front);
        match decoded_all(front) {
            Err(e) => {
                let k = choose|k: int|
                    0 <= k < front.len() && decoded(#[trigger] front[k]) == Err::<
                        EntryView,
                        ErrorView,
                    >(e) && forall|i: int| 0 <= i < k ==> decoded(#[trigger] front[i]) is Ok;
                assert(rows[k] == front[k]);
                assert forall|i: int| 0 <= i < k implies decoded(#[trigger] rows[i]) is Ok by {
                    assert(rows[i] == front[i]);
                }
            },
            Ok(ops) => {
                assert forall|i: int| 0 <= i < n implies decoded(#[trigger] rows[i]) == Ok::<
                    EntryView,
                    ErrorView,
                >(ops[i]) by {
                    assert(rows[i] == front[i]);
                }
                assert(rows.last() == rows[n]);
            },
        }
    }
}

/// Pruning cuts off the retention before the clock, to the nanosecond: at the instant that many days of
/// 86,400 seconds earlier, wherever the calendar has it, and it is asked of the whole log but for the
/// newest revision of each repo. A day more of retention, seen a day later, cuts off at the same instant.
pub proof fn law_pruning_cuts_off_the_retention(secs: u64, nanos: u32, retention_days: i64)
    requires
        has_cutoff(secs, retention_days),
    ensures
        prune_query(secs, nanos, retention_days).sql
            == "DELETE FROM happyview_space_record_oplog WHERE created_at < ? AND rev < (SELECT MAX(o2.rev) FROM happyview_space_record_oplog o2 WHERE o2.space_id = happyview_space_record_oplog.space_id AND o2.author_did = happyview_space_record_oplog.author_did)"@,
        prune_query(secs, nanos, retention_days).params == seq![
            ParamView::Text(
                crate::clock::rfc3339_of_instant((secs - retention_days * 86_400) as i64, nanos)->0,
            ),
        ],
        i64::MIN < retention_days && 86_400 <= secs ==> prune_query(secs, nanos, retention_days)
            == prune_query((secs - 86_400) as u64, nanos, (retention_days - 1) as i64),
{
}

/// There is a cutoff just where the calendar has both the clock's second and the one the retention
/// before it: always for a clock within the calendar and a retention of no days.
pub proof fn law_cutoffs_lie_within_the_calendar(secs: u64, retention_days: i64)
    ensures
        has_cutoff(secs, retention_days) <==> secs <= LAST_SECOND && FIRST_SECOND <= secs
            - retention_days * 86_400 && secs - retention_days * 86_400 <= LAST_SECOND,
        has_cutoff(secs, 0) <==> secs <= 8_210_266_876_799,
{
}

/// A cursor is read by its first colon: what stands in front of it is the revision, and what stands
/// behind it has to be a number that an index can be. White space around it does not matter.
pub proof fn law_cursors_are_read_by_their_colon(rev: Seq<char>, tail: Seq<char>)
    requires
        is_wire_rev(rev),
        tail.len() > 0,
        !is_white_space(tail.last()),
    ensures
        position_of(rev + ":"@ + tail) == (match i32_of(tail) {
            Some(idx) => Some((rev, idx)),
            None => None,
        }),
        position_of(" "@ + (rev + ":"@ + tail)) == position_of(rev + ":"@ + tail),
        position_of((rev + ":"@ + tail) + "\n"@) == position_of(rev + ":"@ + tail),
        position_of(""@) is None,
{
    reveal_strlit(":");
    reveal_strlit(" ");
    reveal_strlit("\n");
    reveal_strlit("");
    let s = rev + ":"@ + tail;
    assert(s[rev.len() as int] == ':');
    assert(rev.len() > 0 ==> s[0] == rev[0]);
    assert(s.last() == tail.last());
    assert(trimmed_start(s) == s);
    assert(trimmed_end(s) == s);
    lemma_span_before(s, ':');
    let k = span_before(s, ':') as int;
    if k < rev.len() {
        assert(rev[k] == s[k]);
        assert(rev.contains(':'));
    }
    assert(s.take(k) =~= rev);
    assert(s.skip(k + 1) =~= tail);
    let front = " "@ + s;
    assert(front.skip(1) =~= s);
    assert(is_white_space(front[0]));
    assert(trimmed_start(front) == s);
    let back = s + "\n"@;
    assert(back.drop_last() =~= s);
    assert(back[0] == s[0]);
    assert(trimmed_start(back) == back);
    assert(trimmed_end(back) == s);
}

/// A cursor stands where its revision and its index say, however it is handed on, and no cursor stands
/// nowhere.
pub proof fn law_cursors_stand_where_they_say(c: OpCursor)
    ensures
        c@ == (c.rev@, c.idx),
        option_position(Some(c)) == Some((c.rev@, c.idx)),
        option_position(None) is None,
        cursor_position(Some(&c)) == Some((c.rev@, c.idx)),
        cursor_position(None) is None,
{
}

} // verus!
