//! What the server decides while it starts.

use happyview_spaces::startup::{
    backfill_needed, callback_url, client_id_url, client_limits, domain_client, domain_of,
    is_loopback, primary_client, setting_cost, stored_value, verbose_enabled, Backfill, DomainStep,
    OAuthClientPlan, RefreshStep, SettingStep,
};
use happyview_spaces::statement::{Param, Statement};
use serde_json::Value;

fn texts(s: &Statement) -> Vec<String> {
    s.params
        .iter()
        .map(|p| match p {
            Param::Text(t) => t.clone(),
            Param::OptionalText(t) => format!("{t:?}"),
            Param::Int(i) => i.to_string(),
        })
        .collect()
}

#[test]
fn backfill_goes_through_all_records() {
    assert!(backfill_needed(0) && !backfill_needed(1));
    let rows: Vec<usize> = (0..2500).collect();
    let mut seen = Vec::new();
    let mut work = Backfill::new(rows.len());
    loop {
        let q = texts(&work.query());
        assert_eq!(q[0], "1000");
        let offset: usize = q[1].parse().unwrap();
        let page: Vec<usize> = rows.iter().skip(offset).take(1000).copied().collect();
        seen.extend_from_slice(&page);
        match work.fetched(page.len()) {
            Some(next) => work = next,
            None => break,
        }
        assert_eq!(work.reports(), work.processed == 2500);
    }
    assert_eq!(seen, rows);
    assert!(Backfill { total: 50_000, processed: 20_000, offset: 20_000 }.reports());
    assert!(!Backfill { total: 50_000, processed: 21_000, offset: 21_000 }.reports());
}

#[test]
fn a_record_that_cannot_be_read_counts_as_null() {
    assert_eq!(stored_value("{\"a\":1}")["a"], 1);
    assert_eq!(stored_value("{"), Value::Null);
}

#[test]
fn a_lexicon_is_fetched_again() {
    let resolve = || RefreshStep::Resolve { nsid: "com.example.a".to_string() };
    let fetch = || resolve().resolved(Ok(("did:plc:a".to_string(), "https://pds".to_string())));
    let parse = || fetch().fetched(Ok(Value::from("lexicon")));
    let store = || parse().parsed(Ok(()));
    assert!(matches!(fetch(), RefreshStep::Fetch { did, endpoint, .. } if did == "did:plc:a" && endpoint == "https://pds"));
    match store() {
        RefreshStep::Store { query, .. } => {
            let p = texts(&query);
            assert_eq!((p[0].as_str(), p[3].as_str()), ("\"lexicon\"", "com.example.a"));
            assert_eq!(p[1], p[2]);
            assert!(query.sql.starts_with("UPDATE happyview_lexicons SET lexicon_json = ?, last_fetched_at = ?, revision = revision + 1"));
        }
        other => panic!("{other:?}"),
    }
    assert!(matches!(store().stored(Ok(())), RefreshStep::Use { nsid } if nsid == "com.example.a"));
    let warning = |step: RefreshStep| match step {
        RefreshStep::Skip { warning, .. } => warning,
        other => panic!("{other:?}"),
    };
    let e = || Err("no".to_string());
    assert_eq!(warning(resolve().resolved(Err("no".to_string()))), "failed to resolve network lexicon authority: no");
    assert_eq!(warning(fetch().fetched(Err("no".to_string()))), "failed to fetch network lexicon from PDS: no");
    assert_eq!(warning(parse().parsed(e())), "failed to parse network lexicon: no");
    assert_eq!(warning(store().stored(e())), "failed to update network lexicon in DB: no");
}

#[test]
fn a_setting_is_seeded_once_and_read_back() {
    let look = || SettingStep::seed_and_read("cost", 7);
    match look().looked(false) {
        SettingStep::Insert { query, .. } => {
            let p = texts(&query);
            assert_eq!((p[0].as_str(), p[1].as_str()), ("cost", "7"));
            assert!(query.sql.ends_with("ON CONFLICT (key) DO NOTHING"));
        }
        other => panic!("{other:?}"),
    }
    assert!(matches!(look().looked(false).inserted().read_back(Some("7")), SettingStep::Done { cost: 7 }));
    assert!(matches!(look().looked(true).read_back(Some("12")), SettingStep::Done { cost: 12 }));
    assert!(matches!(look().looked(false).inserted().read_back(None), SettingStep::Done { cost: 7 }));
}

#[test]
fn settings_that_are_no_numbers_count_as_their_seed() {
    assert_eq!(setting_cost(Some("4294967295"), 1), u32::MAX);
    assert_eq!(setting_cost(Some("+5"), 1), 5);
    for junk in ["4294967296", "-1", "-0", "", "+", " 5", "5 ", "five"] {
        assert_eq!(setting_cost(Some(junk), 1), 1, "{junk:?}");
    }
    assert_eq!(setting_cost(None, 1), 1);
}

#[test]
fn clients_have_their_own_limits_only_in_full() {
    let l = client_limits(Some(10), true, 100);
    assert_eq!((l.capacity, l.own_rate), (10, true));
    let l = client_limits(Some(10), false, 100);
    assert_eq!((l.capacity, l.own_rate), (100, false));
    let l = client_limits(None, true, 100);
    assert_eq!((l.capacity, l.own_rate), (100, false));
    assert_eq!(client_limits(Some(-1), true, 100).capacity, u32::MAX);
}

#[test]
fn the_primary_domain_follows_the_public_url() {
    let count = || DomainStep::Count { public_url: "https://a.example".to_string() };
    match count().counted(0) {
        DomainStep::Insert { query } => {
            let p = texts(&query);
            assert_eq!((p[0].len(), p[1].as_str()), (36, "https://a.example"));
            assert_eq!(p[2], p[3]);
        }
        other => panic!("{other:?}"),
    }
    assert!(matches!(count().counted(0).stored(), DomainStep::Load));
    let primary = |url: &str| count().counted(2).primary(Some(("id".to_string(), url.to_string())));
    assert!(matches!(primary("https://a.example"), DomainStep::Load));
    assert!(matches!(count().counted(2).primary(None), DomainStep::Load));
    match primary("https://b.example") {
        DomainStep::Update { query } => {
            let p = texts(&query);
            assert_eq!((p[0].as_str(), p[2].as_str()), ("https://a.example", "id"));
        }
        other => panic!("{other:?}"),
    }
    let s = || String::new();
    assert!(domain_of(s(), s(), 1, s(), s()).is_primary && !domain_of(s(), s(), 0, s(), s()).is_primary);
}

#[test]
fn oauth_clients_are_built_on_their_domain() {
    assert_eq!(callback_url("https://a.example//"), "https://a.example/auth/callback");
    assert_eq!(client_id_url("https://a.example"), "https://a.example/oauth-client-metadata.json");
    assert_eq!(callback_url("///"), "/auth/callback");
    for local in ["http://127.0.0.1:3000", "http://[::1]:3000", "http://localhost"] {
        assert!(is_loopback(local));
        match primary_client(local, "http://127.0.0.1:3000/".to_string()) {
            OAuthClientPlan::Loopback { redirect_uri, scopes } => {
                assert_eq!(redirect_uri, "http://127.0.0.1:3000/auth/callback");
                assert_eq!(scopes, ["atproto", "identity:*"]);
            }
            other => panic!("{other:?}"),
        }
    }
    assert!(!is_loopback("https://local-host.example") && !is_loopback("") && !is_loopback("127.0.0.2"));
    match primary_client("https://a.example", "https://a.example/base/".to_string()) {
        OAuthClientPlan::Web { client_id, client_uri, redirect_uri, scopes } => {
            assert_eq!(client_id, "https://a.example/base/oauth-client-metadata.json");
            assert_eq!(client_uri, "https://a.example/base/");
            assert_eq!(redirect_uri, "https://a.example/base/auth/callback");
            assert_eq!(scopes.len(), 2);
        }
        other => panic!("{other:?}"),
    }
    assert!(domain_client(true, "https://a.example".to_string()).is_none());
    assert!(matches!(
        domain_client(false, "https://b.example".to_string()),
        Some(OAuthClientPlan::Web { scopes, .. }) if scopes == ["atproto"]
    ));
}

#[test]
fn verbose_logging_is_turned_on_by_one_word() {
    assert!(verbose_enabled(Some("true")) && verbose_enabled(Some("TRUE")) && verbose_enabled(Some("tRuE")));
    assert!(!verbose_enabled(Some("yes")) && !verbose_enabled(Some("true ")) && !verbose_enabled(None));
    assert!(!verbose_enabled(Some("t\u{212a}ue")));
}
