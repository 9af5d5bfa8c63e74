//! What the server decides while it starts.

use vstd::prelude::*;
use vstd::utf8::*;
use crate::clock::{is_stamp, now_rfc3339};
use crate::ids::{is_random_id, new_id};
use crate::json::{json_bytes, json_parse, null, parse_json, to_json_string};
use crate::statement::{ParamView, Statement, StatementView};
use crate::text::{
    contains_text, equal_but_case, law_what_occurs_can_be_cut_out, nat_string, nat_text, occurs_in,
    option_str, parse_u32, same_but_case, same_text, strip_slashes, u32_of, without_slashes,
};

verus! {

/// How many records are looked at in one go while their references are filled in.
pub const BACKFILL_BATCH: i64 = 1000;

/// Filling in the references of the records that were there before references were kept.
#[derive(Debug)]
pub struct Backfill {
    pub total: usize,
    pub processed: usize,
    pub offset: i64,
}

/// Whether references have to be filled in: only while there are none at all.
pub fn backfill_needed(refs: i64) -> (r: bool)
    ensures
        r == (refs == 0),
{
    refs == 0
}

impl Backfill {
    /// Begins with the first of so many records.
    pub fn new(total: usize) -> (r: Backfill)
        ensures
            r == (Backfill { total, processed: 0, offset: 0 }),
    {
        Backfill { total, processed: 0, offset: 0 }
    }

    /// A statement that reads the next records.
    pub fn query(&self) -> (r: Statement)
        ensures
            r@ == (StatementView {
                sql: "SELECT uri, collection, record FROM happyview_records ORDER BY uri LIMIT ? OFFSET ?"@,
                params: seq![ParamView::Int(BACKFILL_BATCH), ParamView::Int(self.offset)],
            }),
    {
        Statement::new(
            "SELECT uri, collection, record FROM happyview_records ORDER BY uri LIMIT ? OFFSET ?",
        ).integer(BACKFILL_BATCH).integer(self.offset)
    }

    /// Takes how many records came back. Nothing is left once none did.
    pub fn fetched(self, count: usize) -> (r: Option<Backfill>)
        requires
            self.processed + count <= usize::MAX,
            self.offset <= i64::MAX - BACKFILL_BATCH,
        ensures
            r == (if count == 0 {
                None
            } else {
                Some(
                    Backfill {
                        total: self.total,
                        processed: (self.processed + count) as usize,
                        offset: (self.offset + BACKFILL_BATCH) as i64,
                    },
                )
            }),
    {
        if count == 0 {
            None
        } else {
            Some(
                Backfill {
                    total: self.total,
                    processed: self.processed + count,
                    offset: self.offset + BACKFILL_BATCH,
                },
            )
        }
    }

    /// Whether it is time to say how far the work has come: after every ten thousand records, and at
    /// the end.
    pub fn reports(&self) -> (r: bool)
        ensures
            r == (self.processed % 10_000 == 0 || self.processed == self.total),
    {
        self.processed % 10_000 == 0 || self.processed == self.total
    }
}

/// The records that the query at an offset comes back with, of records in a fixed order.
pub open spec fn backfill_page<T>(rows: Seq<T>, offset: int) -> Seq<T> {
    if offset >= rows.len() {
        Seq::empty()
    } else if offset + BACKFILL_BATCH > rows.len() {
        rows.skip(offset)
    } else {
        rows.subrange(offset, offset + BACKFILL_BATCH)
    }
}

/// The records of the first queries, one after the other.
pub open spec fn backfilled<T>(rows: Seq<T>, queries: nat) -> Seq<T>
    decreases queries,
{
    if queries == 0 {
        Seq::empty()
    } else {
        backfilled(rows, (queries - 1) as nat) + backfill_page(
            rows,
            (queries - 1) * BACKFILL_BATCH,
        )
    }
}

/// The queries visit every record once, in order: together, the first of them are the front of the
/// records, and one that comes back with nothing stands behind the last record.
pub proof fn law_backfill_visits_every_record<T>(rows: Seq<T>, queries: nat)
    ensures
        backfilled(rows, queries) == (if queries * BACKFILL_BATCH < rows.len() {
            rows.take(queries * BACKFILL_BATCH)
        } else {
            rows
        }),
        backfill_page(rows, queries * BACKFILL_BATCH).len() == 0 ==> backfilled(rows, queries)
            == rows,
    decreases queries,
{
    if queries == 0 {
        assert(rows.take(0) =~= Seq::<T>::empty());
        assert(rows.len() == 0 ==> rows =~= Seq::<T>::empty());
    } else {
        let n = (queries - 1) as nat;
        law_backfill_visits_every_record(rows, n);
        let offset = n * BACKFILL_BATCH;
        if offset < rows.len() {
            if offset + BACKFILL_BATCH > rows.len() {
                assert(rows.take(offset) + rows.skip(offset) =~= rows);
            } else {
                assert(rows.take(offset) + rows.subrange(offset, offset + BACKFILL_BATCH)
                    =~= rows.take(offset + BACKFILL_BATCH));
            }
        }
        assert(rows.take(rows.len() as int) =~= rows);
        assert(rows + Seq::<T>::empty() =~= rows);
    }
}

/// The value of a stored record. One that cannot be read counts as null.
pub fn stored_value(text: &str) -> (r: serde_json::Value)
    ensures
        match json_parse(text@) {
            Ok(value) => r == value,
            Err(_) => json_bytes(r) == seq![110u8, 117u8, 108u8, 108u8],
        },
{
    match parse_json(text) {
        Ok(value) => value,
        Err(_) => null(),
    }
}

/// Fetching a lexicon again that came from the network.
#[derive(Debug)]
pub enum RefreshStep {
    /// Find out who is in charge of the lexicon, and on which server it lies.
    Resolve { nsid: String },
    /// Fetch it from there.
    Fetch { nsid: String, did: String, endpoint: String },
    /// See whether it can be understood.
    Parse { nsid: String, lexicon: serde_json::Value },
    /// Store it.
    Store { nsid: String, query: Statement },
    /// Put it to use.
    Use { nsid: String },
    /// Leave it as it was, and say why.
    Skip { nsid: String, warning: String },
}

/// The statement that stores a lexicon anew, at a time.
pub open spec fn lexicon_update(json: Seq<char>, now: Seq<char>, nsid: Seq<char>) -> StatementView {
    StatementView {
        sql: "UPDATE happyview_lexicons SET lexicon_json = ?, last_fetched_at = ?, revision = revision + 1, updated_at = ? WHERE id = ? AND source = 'network'"@,
        params: seq![
            ParamView::Text(json),
            ParamView::Text(now),
            ParamView::Text(now),
            ParamView::Text(nsid),
        ],
    }
}

impl RefreshStep {
    fn skip(nsid: String, reason: &str, e: &str) -> (r: RefreshStep)
        ensures
            r matches RefreshStep::Skip { nsid: n, warning } && n == nsid && warning@ == reason@
                + e@,
    {
        let mut warning = reason.to_owned();
        warning.append(e);
        RefreshStep::Skip { nsid, warning }
    }

    /// Takes the authority and the server of the lexicon.
    pub fn resolved(self, answer: Result<(String, String), String>) -> (r: RefreshStep)
        requires
            self is Resolve,
        ensures
            match answer {
                Ok(found) => r == (RefreshStep::Fetch {
                    nsid: self->Resolve_nsid,
                    did: found.0,
                    endpoint: found.1,
                }),
                Err(e) => r matches RefreshStep::Skip { nsid, warning } && nsid
                    == self->Resolve_nsid && warning@
                    == "failed to resolve network lexicon authority: "@ + e@,
            },
    {
        match self {
            RefreshStep::Resolve { nsid } => match answer {
                Ok((did, endpoint)) => RefreshStep::Fetch { nsid, did, endpoint },
                Err(e) => RefreshStep::skip(
                    nsid,
                    "failed to resolve network lexicon authority: ",
                    e.as_str(),
                ),
            },
            other => other,
        }
    }

    /// Takes the lexicon.
    pub fn fetched(self, answer: Result<serde_json::Value, String>) -> (r: RefreshStep)
        requires
            self is Fetch,
        ensures
            match answer {
                Ok(v) => r == (RefreshStep::Parse { nsid: self->Fetch_nsid, lexicon: v }),
                Err(e) => r matches RefreshStep::Skip { nsid, warning } && nsid == self->Fetch_nsid
                    && warning@ == "failed to fetch network lexicon from PDS: "@ + e@,
            },
    {
        match self {
            RefreshStep::Fetch { nsid, .. } => match answer {
                Ok(lexicon) => RefreshStep::Parse { nsid, lexicon },
                Err(e) => RefreshStep::skip(
                    nsid,
                    "failed to fetch network lexicon from PDS: ",
                    e.as_str(),
                ),
            },
            other => other,
        }
    }

    /// Takes whether the lexicon can be understood. What is stored of it is its own serialisation.
    pub fn parsed(self, answer: Result<(), String>) -> (r: RefreshStep)
        requires
            self is Parse,
        ensures
            match answer {
                Ok(_) => r matches RefreshStep::Store { nsid, query } && nsid == self->Parse_nsid
                    && exists|json: Seq<char>, now: Seq<char>|
                    query@ == #[trigger] lexicon_update(json, now, nsid@) && encode_utf8(json)
                        == json_bytes(self->lexicon) && is_stamp(now),
                Err(e) => r matches RefreshStep::Skip { nsid, warning } && nsid == self->Parse_nsid
                    && warning@ == "failed to parse network lexicon: "@ + e@,
            },
    {
        match self {
            RefreshStep::Parse { nsid, lexicon } => match answer {
                Ok(_) => {
                    let now = now_rfc3339();
                    let json = to_json_string(&lexicon);
                    let query = Statement::new(
                        "UPDATE happyview_lexicons SET lexicon_json = ?, last_fetched_at = ?, revision = revision + 1, updated_at = ? WHERE id = ? AND source = 'network'",
                    ).text(json.as_str()).text(now.as_str()).text(now.as_str()).text(
                        nsid.as_str(),
                    );
                    assert(query@ == lexicon_update(json@, now@, nsid@));
                    assert(encode_utf8(json@) == json_bytes(self->lexicon));
                    assert(is_stamp(now@));
                    RefreshStep::Store { nsid, query }
                },
                Err(e) => RefreshStep::skip(
                    nsid,
                    "failed to parse network lexicon: ",
                    e.as_str(),
                ),
            },
            other => other,
        }
    }

    /// Takes whether the lexicon has been stored. One that is not stored is not used.
    pub fn stored(self, answer: Result<(), String>) -> (r: RefreshStep)
        requires
            self is Store,
        ensures
            match answer {
                Ok(_) => r == (RefreshStep::Use { nsid: self->Store_nsid }),
                Err(e) => r matches RefreshStep::Skip { nsid, warning } && nsid == self->Store_nsid
                    && warning@ == "failed to update network lexicon in DB: "@ + e@,
            },
    {
        match self {
            RefreshStep::Store { nsid, .. } => match answer {
                Ok(_) => RefreshStep::Use { nsid },
                Err(e) => RefreshStep::skip(
                    nsid,
                    "failed to update network lexicon in DB: ",
                    e.as_str(),
                ),
            },
            other => other,
        }
    }
}

/// The number that a setting states, or the one that it starts out with where it states none.
pub open spec fn cost_of(setting: Option<Seq<char>>, seed: u32) -> u32 {
    match setting {
        None => seed,
        Some(s) => match u32_of(s) {
            Some(n) => n,
            None => seed,
        },
    }
}

/// Reads the number that a setting states.
pub fn setting_cost(setting: Option<&str>, seed: u32) -> (r: u32)
    ensures
        r == cost_of(option_str(setting), seed),
{
    match setting {
        None => seed,
        Some(s) => match parse_u32(s) {
            Some(n) => n,
            None => seed,
        },
    }
}

/// Giving a setting the number that it starts out with, and reading what it is then.
#[derive(Debug)]
pub enum SettingStep {
    /// Read the setting.
    Look { key: String, seed: u32 },
    /// Store the number, unless someone else has stored one by now.
    Insert { key: String, seed: u32, query: Statement },
    /// Read the setting again.
    ReadBack { key: String, seed: u32 },
    /// This is the number.
    Done { cost: u32 },
}

/// The statement that stores the number that a setting starts out with, at a time.
pub open spec fn seed_query(key: Seq<char>, seed: u32, now: Seq<char>) -> StatementView {
    StatementView {
        sql: "INSERT INTO happyview_instance_settings (key, value, updated_at) VALUES (?, ?, ?) ON CONFLICT (key) DO NOTHING"@,
        params: seq![
            ParamView::Text(key),
            ParamView::Text(nat_text(seed as nat)),
            ParamView::Text(now),
        ],
    }
}

impl SettingStep {
    /// The first step for a setting.
    pub fn seed_and_read(key: &str, seed: u32) -> (r: SettingStep)
        ensures
            r matches SettingStep::Look { key: k, seed: s } && k@ == key@ && s == seed,
    {
        SettingStep::Look { key: key.to_owned(), seed }
    }

    /// Takes the setting, if there is one.
    pub fn looked(self, is_set: bool) -> (r: SettingStep)
        requires
            self is Look,
        ensures
            if is_set {
                r == (SettingStep::ReadBack { key: self->Look_key, seed: self->Look_seed })
            } else {
                r matches SettingStep::Insert { key, seed, query } && key == self->Look_key && seed
                    == self->Look_seed && exists|now: Seq<char>|
                    query@ == #[trigger] seed_query(key@, seed, now) && is_stamp(now)
            },
    {
        match self {
            SettingStep::Look { key, seed } => if is_set {
                SettingStep::ReadBack { key, seed }
            } else {
                let now = now_rfc3339();
                let value = nat_string(seed as u64);
                let query = Statement::new(
                    "INSERT INTO happyview_instance_settings (key, value, updated_at) VALUES (?, ?, ?) ON CONFLICT (key) DO NOTHING",
                ).text(key.as_str()).text(value.as_str()).text(now.as_str());
                assert(query@ =~= seed_query(key@, seed, now@));
                SettingStep::Insert { key, seed, query }
            },
            other => other,
        }
    }

    /// Takes that storing the number has been tried. Whether it worked shows when it is read back.
    pub fn inserted(self) -> (r: SettingStep)
        requires
            self is Insert,
        ensures
            r == (SettingStep::ReadBack { key: self->Insert_key, seed: self->Insert_seed }),
    {
        match self {
            SettingStep::Insert { key, seed, .. } => SettingStep::ReadBack { key, seed },
            other => other,
        }
    }

    /// Takes the setting, if there is one by now.
    pub fn read_back(self, setting: Option<&str>) -> (r: SettingStep)
        requires
            self is ReadBack,
        ensures
            r == (SettingStep::Done { cost: cost_of(option_str(setting), self->ReadBack_seed) }),
    {
        match self {
            SettingStep::ReadBack { seed, .. } => SettingStep::Done {
                cost: setting_cost(setting, seed),
            },
            other => other,
        }
    }
}

/// A setting that was given its number reads back as that number.
pub proof fn law_seed_reads_back(seed: u32)
    ensures
        cost_of(Some(nat_text(seed as nat)), seed) == seed,
        u32_of(nat_text(seed as nat)) == Some(seed),
{
    let s = nat_text(seed as nat);
    crate::text::lemma_nat_text(seed as nat);
    assert('0' <= s[0] <= '9');
}

/// How much an API client may use, with the rate left to whoever knows it.
#[derive(Debug, Clone, Copy, PartialEq, Eq, Structural)]
pub struct ClientLimits {
    pub capacity: u32,
    /// Whether the rate is the client's own, or the usual one.
    pub own_rate: bool,
}

/// The limits of an API client: its own where it has both a capacity and a rate, and else the usual
/// ones.
pub fn client_limits(capacity: Option<i32>, has_rate: bool, usual_capacity: u32) -> (r: ClientLimits)
    ensures
        r == (if capacity is Some && has_rate {
            ClientLimits { capacity: capacity->0 as u32, own_rate: true }
        } else {
            ClientLimits { capacity: usual_capacity, own_rate: false }
        }),
{
    match capacity {
        Some(cap) => if has_rate {
            ClientLimits { capacity: cap as u32, own_rate: true }
        } else {
            ClientLimits { capacity: usual_capacity, own_rate: false }
        },
        None => ClientLimits { capacity: usual_capacity, own_rate: false },
    }
}

/// A domain that the server answers under.
#[derive(Debug)]
pub struct Domain {
    pub id: String,
    pub url: String,
    pub is_primary: bool,
    pub created_at: String,
    pub updated_at: String,
}

/// Bringing the primary domain in line with the URL that the server is told to have.
#[derive(Debug)]
pub enum DomainStep {
    /// Count the domains.
    Count { public_url: String },
    /// Store the first domain.
    Insert { query: Statement },
    /// Read the primary domain.
    ReadPrimary { public_url: String },
    /// Change the URL of the primary domain.
    Update { query: Statement },
    /// The domains can be loaded.
    Load,
}

/// The statement that stores the primary domain.
pub open spec fn domain_insert(id: Seq<char>, url: Seq<char>, now: Seq<char>) -> StatementView {
    StatementView {
        sql: "INSERT INTO happyview_domains (id, url, is_primary, created_at, updated_at) VALUES (?, ?, 1, ?, ?)"@,
        params: seq![
            ParamView::Text(id),
            ParamView::Text(url),
            ParamView::Text(now),
            ParamView::Text(now),
        ],
    }
}

/// The statement that changes the URL of a domain.
pub open spec fn domain_update(id: Seq<char>, url: Seq<char>, now: Seq<char>) -> StatementView {
    StatementView {
        sql: "UPDATE happyview_domains SET url = ?, updated_at = ? WHERE id = ?"@,
        params: seq![ParamView::Text(url), ParamView::Text(now), ParamView::Text(id)],
    }
}

impl DomainStep {
    /// Takes how many domains there are. The first is the one that the server is told to have.
    pub fn counted(self, count: i64) -> (r: DomainStep)
        requires
            self is Count,
        ensures
            if count == 0 {
                r matches DomainStep::Insert { query } && exists|id: Seq<char>, now: Seq<char>|
                    query@ == #[trigger] domain_insert(id, self->Count_public_url@, now)
                        && is_random_id(id) && is_stamp(now)
            } else {
                r == (DomainStep::ReadPrimary { public_url: self->Count_public_url })
            },
    {
        match self {
            DomainStep::Count { public_url } => if count == 0 {
                let id = new_id();
                let now = now_rfc3339();
                let query = Statement::new(
                    "INSERT INTO happyview_domains (id, url, is_primary, created_at, updated_at) VALUES (?, ?, 1, ?, ?)",
                ).text(id.as_str()).text(public_url.as_str()).text(now.as_str()).text(
                    now.as_str(),
                );
                assert(query@ =~= domain_insert(id@, public_url@, now@));
                DomainStep::Insert { query }
            } else {
                DomainStep::ReadPrimary { public_url }
            },
            other => other,
        }
    }

    /// Takes the identifier and the URL of the primary domain, if there is one. Its URL is changed
    /// where it is not the one that the server is told to have.
    pub fn primary(self, found: Option<(String, String)>) -> (r: DomainStep)
        requires
            self is ReadPrimary,
        ensures
            match found {
                Some((id, url)) if url@ != self->ReadPrimary_public_url@ => r
                    matches DomainStep::Update { query } && exists|now: Seq<char>|
                    query@ == #[trigger] domain_update(id@, self->ReadPrimary_public_url@, now)
                        && is_stamp(now),
                _ => r is Load,
            },
    {
        match self {
            DomainStep::ReadPrimary { public_url } => match found {
                None => DomainStep::Load,
                Some((id, url)) => if same_text(url.as_str(), public_url.as_str()) {
                    DomainStep::Load
                } else {
                    let now = now_rfc3339();
                    let query = Statement::new(
                        "UPDATE happyview_domains SET url = ?, updated_at = ? WHERE id = ?",
                    ).text(public_url.as_str()).text(now.as_str()).text(id.as_str());
                    assert(query@ =~= domain_update(id@, public_url@, now@));
                    DomainStep::Update { query }
                },
            },
            other => other,
        }
    }

    /// Takes that the domain has been stored or changed.
    pub fn stored(self) -> (r: DomainStep)
        requires
            self is Insert || self is Update,
        ensures
            r is Load,
    {
        DomainStep::Load
    }
}

/// The domain of a stored row, whose mark of being the primary one is a number.
pub fn domain_of(id: String, url: String, is_primary: i32, created_at: String, updated_at: String) -> (r:
    Domain)
    ensures
        r == (Domain { id, url, is_primary: is_primary != 0, created_at, updated_at }),
{
    Domain { id, url, is_primary: is_primary != 0, created_at, updated_at }
}

/// Whether a URL is one that only this machine can reach.
pub open spec fn is_local(url: Seq<char>) -> bool {
    occurs_in("127.0.0.1"@, url) || occurs_in("[::1]"@, url) || occurs_in("localhost"@, url)
}

/// Whether a URL is one that only this machine can reach.
pub fn is_loopback(public_url: &str) -> (r: bool)
    ensures
        r == is_local(public_url@),
{
    contains_text(public_url, "127.0.0.1") || contains_text(public_url, "[::1]") || contains_text(
        public_url,
        "localhost",
    )
}

/// Where a login comes back to.
pub fn callback_url(base_url: &str) -> (r: String)
    ensures
        r@ == without_slashes(base_url@) + "/auth/callback"@,
{
    let mut s = strip_slashes(base_url).to_owned();
    s.append("/auth/callback");
    s
}

/// Where the server says what OAuth client it is.
pub fn client_id_url(base_url: &str) -> (r: String)
    ensures
        r@ == without_slashes(base_url@) + "/oauth-client-metadata.json"@,
{
    let mut s = strip_slashes(base_url).to_owned();
    s.append("/oauth-client-metadata.json");
    s
}

/// The OAuth client that the server is for a domain.
#[derive(Debug)]
pub enum OAuthClientPlan {
    /// A client for development on this machine, which nobody has to look up.
    Loopback { redirect_uri: String, scopes: Vec<&'static str> },
    /// A client that is known by its URL.
    Web { client_id: String, client_uri: String, redirect_uri: String, scopes: Vec<&'static str> },
}

/// The OAuth client of the primary domain, which may also read identities.
pub fn primary_client(public_url: &str, effective_url: String) -> (r: OAuthClientPlan)
    ensures
        if is_local(public_url@) {
            r matches OAuthClientPlan::Loopback { redirect_uri, scopes } && redirect_uri@
                == without_slashes(effective_url@) + "/auth/callback"@ && scopes@ == seq![
                "atproto",
                "identity:*",
            ]
        } else {
            r matches OAuthClientPlan::Web { client_id, client_uri, redirect_uri, scopes }
                && client_id@ == without_slashes(effective_url@) + "/oauth-client-metadata.json"@
                && client_uri == effective_url && redirect_uri@ == without_slashes(effective_url@)
                + "/auth/callback"@ && scopes@ == seq!["atproto", "identity:*"]
        },
{
    let redirect_uri = callback_url(effective_url.as_str());
    let scopes = vec!["atproto", "identity:*"];
    if is_loopback(public_url) {
        OAuthClientPlan::Loopback { redirect_uri, scopes }
    } else {
        OAuthClientPlan::Web {
            client_id: client_id_url(effective_url.as_str()),
            client_uri: effective_url,
            redirect_uri,
            scopes,
        }
    }
}

/// The OAuth client of a domain beside the primary one. The primary domain has its own already.
pub fn domain_client(is_primary: bool, base_url: String) -> (r: Option<OAuthClientPlan>)
    ensures
        if is_primary {
            r is None
        } else {
            r matches Some(plan) && plan matches OAuthClientPlan::Web {
                client_id,
                client_uri,
                redirect_uri,
                scopes,
            } && client_id@ == without_slashes(base_url@) + "/oauth-client-metadata.json"@
                && client_uri == base_url && redirect_uri@ == without_slashes(base_url@)
                + "/auth/callback"@ && scopes@ == seq!["atproto"]
        },
{
    if is_primary {
        return None;
    }
    Some(
        OAuthClientPlan::Web {
            client_id: client_id_url(base_url.as_str()),
            redirect_uri: callback_url(base_url.as_str()),
            client_uri: base_url,
            scopes: vec!["atproto"],
        },
    )
}

/// How many seconds lie between two looks at the setting for verbose event logging.
pub const VERBOSE_LOOK_SECS: u64 = 30;

/// Whether the setting for verbose event logging turns it on: the word `true`, in any case.
pub fn verbose_enabled(setting: Option<&str>) -> (r: bool)
    ensures
        r == (match option_str(setting) {
            Some(s) => same_but_case(s, "true"@),
            None => false,
        }),
{
    match setting {
        Some(s) => equal_but_case(s, "true"),
        None => false,
    }
}

/// Slashes at the end of a base URL do not matter for what is built on it.
pub proof fn law_trailing_slashes_do_not_matter(base_url: Seq<char>)
    ensures
        without_slashes(base_url + "/"@) == without_slashes(base_url),
        without_slashes(base_url).len() > 0 ==> without_slashes(base_url).last() != '/',
    decreases base_url.len(),
{
    reveal_strlit("/");
    assert((base_url + "/"@).drop_last() =~= base_url);
    if base_url.len() > 0 && base_url.last() == '/' {
        law_trailing_slashes_do_not_matter(base_url.drop_last());
    }
}

/// A setting counts as the number that it states, with or without a plus sign, and as its seed where it
/// states none: where there is no setting, or where its number is too large.
pub proof fn law_settings_count_as_their_number(n: nat, seed: u32)
    ensures
        n <= u32::MAX ==> cost_of(Some(nat_text(n)), seed) == n,
        n <= u32::MAX ==> cost_of(Some("+"@ + nat_text(n)), seed) == n,
        n > u32::MAX ==> cost_of(Some(nat_text(n)), seed) == seed,
        cost_of(Some("-"@ + nat_text(n)), seed) == seed,
        cost_of(Some(""@), seed) == seed,
        cost_of(None, seed) == seed,
{
    reveal_strlit("+");
    reveal_strlit("-");
    reveal_strlit("");
    let s = nat_text(n);
    crate::text::lemma_nat_text(n);
    assert('0' <= s[0] <= '9');
    let plus = "+"@ + s;
    assert(plus.skip(1) =~= s);
    assert(plus[0] == '+');
    let minus = "-"@ + s;
    assert(minus[0] == '-');
    assert(!crate::text::is_digits(minus));
}

/// What a setting starts out with is stored under its own key, as a number that reads back, and replaces
/// nothing that is stored already.
pub proof fn law_seed_is_stored_under_its_key(key: Seq<char>, seed: u32, now: Seq<char>)
    ensures
        seed_query(key, seed, now).sql
            == "INSERT INTO happyview_instance_settings (key, value, updated_at) VALUES (?, ?, ?) ON CONFLICT (key) DO NOTHING"@,
        seed_query(key, seed, now).params.len() == 3,
        seed_query(key, seed, now).params[0] == ParamView::Text(key),
        seed_query(key, seed, now).params[1] matches ParamView::Text(value) && u32_of(value) == Some(
            seed,
        ),
        seed_query(key, seed, now).params[2] == ParamView::Text(now),
{
    law_seed_reads_back(seed);
}

/// A lexicon that was fetched again is stored where it was, with one moment for its fetching and its
/// change, and one that did not come from the network is left alone.
pub proof fn law_lexicon_is_stored_where_it_was(json: Seq<char>, now: Seq<char>, nsid: Seq<char>)
    ensures
        lexicon_update(json, now, nsid).sql
            == "UPDATE happyview_lexicons SET lexicon_json = ?, last_fetched_at = ?, revision = revision + 1, updated_at = ? WHERE id = ? AND source = 'network'"@,
        lexicon_update(json, now, nsid).params == seq![
            ParamView::Text(json),
            ParamView::Text(now),
            ParamView::Text(now),
            ParamView::Text(nsid),
        ],
{
}

/// The primary domain is stored under its own identifier with the URL that the server is told to have,
/// and a change of the URL goes to the domain with that identifier, with the moment of the change.
pub proof fn law_primary_domain_gets_the_url(id: Seq<char>, url: Seq<char>, now: Seq<char>)
    ensures
        domain_insert(id, url, now).sql
            == "INSERT INTO happyview_domains (id, url, is_primary, created_at, updated_at) VALUES (?, ?, 1, ?, ?)"@,
        domain_insert(id, url, now).params == seq![
            ParamView::Text(id),
            ParamView::Text(url),
            ParamView::Text(now),
            ParamView::Text(now),
        ],
        domain_update(id, url, now).sql
            == "UPDATE happyview_domains SET url = ?, updated_at = ? WHERE id = ?"@,
        domain_update(id, url, now).params == seq![
            ParamView::Text(url),
            ParamView::Text(now),
            ParamView::Text(id),
        ],
{
}

/// A URL that names this machine, wherever it does so, is one that only this machine can reach, and one
/// that does not is not.
pub proof fn law_local_urls_name_this_machine(front: Seq<char>, back: Seq<char>)
    ensures
        is_local(front + "127.0.0.1"@ + back),
        is_local(front + "[::1]"@ + back),
        is_local(front + "localhost"@ + back),
        is_local(front) ==> occurs_in("127.0.0.1"@, front) || occurs_in("[::1]"@, front) || occurs_in(
            "localhost"@,
            front,
        ),
{
    law_what_occurs_can_be_cut_out("127.0.0.1"@, front + "127.0.0.1"@ + back);
    law_what_occurs_can_be_cut_out("[::1]"@, front + "[::1]"@ + back);
    law_what_occurs_can_be_cut_out("localhost"@, front + "localhost"@ + back);
}

} // verus!
