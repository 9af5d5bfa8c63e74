use happyview_spaces::error::AppError;
use happyview_spaces::clock::{now_rfc3339, stamp_at, LAST_SECOND};
use happyview_spaces::oplog::{
    after_cursor_sql, append_op, can_serve, cleanup_interval, decode_rows, floor, head, list_ops,
    list_ops_with_values, prune, prune_at, OpCursor, OplogRow, RETENTION_DAYS,
};
use happyview_spaces::statement::{Param, Statement};
use happyview_spaces::types::{OplogAction, OplogEntry};

fn texts(s: &Statement) -> Vec<String> {
    s.params
        .iter()
        .map(|p| match p {
            Param::Text(t) => t.clone(),
            Param::OptionalText(Some(t)) => t.clone(),
            Param::OptionalText(None) => "NULL".to_string(),
            Param::Int(i) => i.to_string(),
        })
        .collect()
}

fn at(rev: &str, idx: i32) -> OpCursor {
    OpCursor { rev: rev.to_string(), idx }
}

fn row(action: &str, record: Option<&str>) -> OplogRow {
    OplogRow {
        id: "id".to_string(),
        space_id: "space".to_string(),
        author_did: "did:plc:a".to_string(),
        rev: "3k".to_string(),
        idx: 2,
        action: action.to_string(),
        collection: "com.example.item".to_string(),
        rkey: "rk".to_string(),
        cid: Some("cid".to_string()),
        prev: None,
        created_at: "now".to_string(),
        record: record.map(|r| r.to_string()),
    }
}

#[test]
fn cursor_parses_the_wire_form() {
    let c = OpCursor::parse("3mslxeytuac2j:4").expect("parses");
    assert_eq!(c.rev, "3mslxeytuac2j");
    assert_eq!(c.idx, 4);
    assert_eq!(c.to_wire(), "3mslxeytuac2j:4");
}

#[test]
fn cursor_treats_a_bare_rev_as_the_whole_revision() {
    let c = OpCursor::parse("3mslxeytuac2j").expect("parses");
    assert_eq!(c.idx, i32::MAX, "a rev-only cursor must skip the whole rev");
}

#[test]
fn cursor_rejects_junk() {
    assert_eq!(OpCursor::parse(""), None);
    assert_eq!(OpCursor::parse("   "), None);
    assert_eq!(OpCursor::parse("rev:notanumber"), None);
}

#[test]
fn cursor_edges() {
    assert_eq!(OpCursor::parse("  3k:7\n"), Some(at("3k", 7)));
    assert_eq!(OpCursor::parse("3k:+7"), Some(at("3k", 7)));
    assert_eq!(OpCursor::parse("3k:-2147483648"), Some(at("3k", i32::MIN)));
    assert_eq!(OpCursor::parse("3k:2147483647"), Some(at("3k", i32::MAX)));
    assert_eq!(OpCursor::parse("3k:2147483648"), None);
    assert_eq!(OpCursor::parse("3k:-2147483649"), None);
    assert_eq!(OpCursor::parse("3k:"), None);
    assert_eq!(OpCursor::parse("3k:1:2"), None);
    assert_eq!(OpCursor::parse("3k: 1"), None);
    assert_eq!(OpCursor::parse(":5"), Some(at("", 5)));
}

#[test]
fn cursor_round_trip() {
    for idx in [i32::MIN, -1, 0, 9, 10, 12345, i32::MAX] {
        let c = at("3mslxeytuac2j", idx);
        assert_eq!(OpCursor::format(&c.rev, c.idx), format!("3mslxeytuac2j:{idx}"));
        assert_eq!(OpCursor::parse(&c.to_wire()), Some(c));
    }
}

#[test]
fn a_cursor_is_served_from_the_floor_on() {
    let floor = Some(at("3k", 3));
    assert!(can_serve(&floor, &at("3k", 3)));
    assert!(can_serve(&floor, &at("3k", 4)));
    assert!(can_serve(&floor, &at("3l", 0)));
    assert!(!can_serve(&floor, &at("3k", 2)));
    assert!(!can_serve(&floor, &at("3j", 9)));
    assert!(!can_serve(&floor, &at("2222222222222", 0)));
    assert!(!can_serve(&None, &at("3l", 0)));
}

#[test]
fn the_condition_behind_a_cursor() {
    assert_eq!(
        after_cursor_sql(""),
        "AND ((rev > ?) OR (rev = ? AND idx > ?)) "
    );
    assert_eq!(
        after_cursor_sql("o."),
        "AND ((o.rev > ?) OR (o.rev = ? AND o.idx > ?)) "
    );
}

#[test]
fn a_page_query_binds_in_order() {
    let s = list_ops("space", "did:plc:a", None, 100);
    assert!(s.sql.ends_with("WHERE space_id = ? AND author_did = ? ORDER BY rev, idx LIMIT ?"));
    assert_eq!(texts(&s), ["space", "did:plc:a", "100"]);

    let c = at("3k", 4);
    let s = list_ops("space", "did:plc:a", Some(&c), 5);
    assert!(s.sql.ends_with(
        "author_did = ? AND ((rev > ?) OR (rev = ? AND idx > ?)) ORDER BY rev, idx LIMIT ?"
    ));
    assert_eq!(texts(&s), ["space", "did:plc:a", "3k", "3k", "4", "5"]);
    assert_eq!(s.sql.matches('?').count(), s.params.len());

    let s = list_ops_with_values("space", "did:plc:a", Some(&c), 5);
    assert!(s.sql.contains("LEFT JOIN happyview_space_records r ON r.space_id = o.space_id"));
    assert!(s.sql.ends_with(
        "o.author_did = ? AND ((o.rev > ?) OR (o.rev = ? AND o.idx > ?)) ORDER BY o.rev, o.idx LIMIT ?"
    ));
    assert_eq!(s.sql.matches('?').count(), s.params.len());
}

#[test]
fn head_and_floor_queries() {
    let h = head("space", "did:plc:a");
    assert!(h.sql.ends_with("ORDER BY rev DESC, idx DESC LIMIT 1"));
    assert_eq!(texts(&h), ["space", "did:plc:a"]);
    let f = floor("space", "did:plc:a");
    assert!(f.sql.ends_with("ORDER BY rev ASC, idx ASC LIMIT 1"));
    assert_eq!(texts(&f), ["space", "did:plc:a"]);
}

#[test]
fn appending_binds_every_column() {
    let entry = OplogEntry {
        id: "id".to_string(),
        space_id: "space".to_string(),
        author_did: "did:plc:a".to_string(),
        rev: "3k".to_string(),
        idx: 2,
        action: OplogAction::Delete,
        collection: "com.example.item".to_string(),
        rkey: "rk".to_string(),
        cid: None,
        prev: Some("old".to_string()),
        value: None,
        created_at: "now".to_string(),
    };
    let s = append_op(&entry);
    assert_eq!(s.sql.matches('?').count(), s.params.len());
    assert_eq!(
        texts(&s),
        ["id", "space", "did:plc:a", "3k", "2", "delete", "com.example.item", "rk", "NULL", "old", "now"]
    );
}

#[test]
fn rows_become_operations() {
    let entries = decode_rows(&vec![row("create", Some("{\"n\":1}")), row("delete", None)])
        .expect("rows decode");
    assert_eq!(entries.len(), 2);
    assert_eq!(entries[0].action, OplogAction::Create);
    assert_eq!(entries[0].value.as_ref().unwrap()["n"], 1);
    assert_eq!(entries[1].action, OplogAction::Delete);
    assert!(entries[1].value.is_none());
    assert_eq!(entries[1].idx, 2);
}

#[test]
fn a_row_at_fault_is_an_error() {
    let e = decode_rows(&vec![row("create", None), row("rename", Some("{"))]).unwrap_err();
    assert!(matches!(e, AppError::Internal(m) if m == "invalid oplog action: rename"));
    let e = decode_rows(&vec![row("update", Some("{"))]).unwrap_err();
    assert!(matches!(e, AppError::Internal(m) if m.starts_with("failed to parse record value: EOF")));
}

#[test]
fn actions_have_names() {
    for (action, name) in [
        (OplogAction::Create, "create"),
        (OplogAction::Update, "update"),
        (OplogAction::Delete, "delete"),
    ] {
        assert_eq!(action.as_str(), name);
        assert_eq!(OplogAction::parse(name), Some(action));
    }
    assert_eq!(OplogAction::parse("Create"), None);
}

#[test]
fn pruning_cuts_off_at_the_retention() {
    let s = prune_at(1_704_067_200 + 30 * 86_400, 0, RETENTION_DAYS).expect("within the calendar");
    assert_eq!(texts(&s), ["2024-01-01T00:00:00+00:00"]);
    assert!(s.sql.starts_with("DELETE FROM happyview_space_record_oplog WHERE created_at < ? AND rev < (SELECT MAX(o2.rev)"));
    let s = prune_at(1_704_067_200, 500_000_000, 0).expect("within the calendar");
    assert_eq!(texts(&s), ["2024-01-01T00:00:00.500+00:00"]);
    let now = texts(&prune(30).expect("the calendar reaches back"));
    assert!(now[0].as_str() > "2024-01-01");
    assert!(prune(i64::MAX).is_none());
    assert!(prune(90_000_000).is_some() && prune(0).is_some());
    assert!(prune_at(1_704_067_200, 0, i64::MIN).is_none());
    assert!(prune_at(LAST_SECOND as u64, 0, 0).is_some());
    assert!(prune_at(LAST_SECOND as u64 + 1, 0, 1).is_none());
    assert!(prune_at(u64::MAX, 0, 30).is_none());
}

#[test]
fn stamps_stay_within_the_calendar() {
    assert_eq!(stamp_at(1_704_067_200, 0), "2024-01-01T00:00:00+00:00");
    assert_eq!(stamp_at(u64::MAX, 0), stamp_at(LAST_SECOND as u64, 0));
    assert_eq!(stamp_at(u64::MAX, 0), "+262142-12-31T23:59:59+00:00");
    assert!(now_rfc3339().as_str() > "2024-01-01");
}

#[test]
fn pruning_runs_hourly_unless_disabled() {
    assert_eq!(cleanup_interval(30), Some(3600));
    assert_eq!(cleanup_interval(1), Some(3600));
    assert_eq!(cleanup_interval(0), None);
    assert_eq!(cleanup_interval(-1), None);
}

#[test]
fn placeholders_are_numbered_in_turn() {
    let s = list_ops("space", "did:plc:a", None, 100);
    assert!(s.numbered_sql().ends_with("WHERE space_id = $1 AND author_did = $2 ORDER BY rev, idx LIMIT $3"));
    let entry = prune_at(1_704_067_200, 0, 0).expect("within the calendar");
    assert_eq!(entry.numbered_sql().matches('$').count(), 1);
    assert!(!append_sql().contains('?') && append_sql().ends_with("$9, $10, $11)"));
}

fn append_sql() -> String {
    let text = |s: &str| s.to_string();
    append_op(&OplogEntry {
        id: text("id"),
        space_id: text("space"),
        author_did: text("did:plc:a"),
        rev: text("3k"),
        idx: 0,
        action: OplogAction::Create,
        collection: text("c"),
        rkey: text("k"),
        cid: None,
        prev: None,
        value: None,
        created_at: text("now"),
    })
    .numbered_sql()
}
