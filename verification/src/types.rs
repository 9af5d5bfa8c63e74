//! What a space is made of: the space itself, its members, records, invites and op log.

use vstd::prelude::*;
use crate::json::{empty_object, json_entries};
use crate::text::{option_text, same_text};

verus! {

/// What a member may do in a space.
#[derive(Debug, Clone, Copy, PartialEq, Eq, Structural)]
pub enum SpaceAccess {
    /// Read one's own records only.
    ReadSelf,
    /// Read every record.
    Read,
    /// Read every record, and write one's own.
    Write,
}

impl SpaceAccess {
    pub open spec fn writes(self) -> bool {
        self is Write
    }

    /// Whether this access allows writing.
    pub fn can_write(&self) -> (r: bool)
        ensures
            r == self.writes(),
    {
        match self {
            SpaceAccess::Write => true,
            _ => false,
        }
    }
}

/// Who may be given a credential for a space.
#[derive(Debug, PartialEq, Eq)]
pub enum MintPolicy {
    /// The members of the space.
    MemberList,
    /// A policy by its name.
    Named(String),
}

/// Which apps may reach a space.
#[derive(Debug, PartialEq, Eq)]
pub enum AppAccess {
    /// Those that the instance admits where a space says nothing.
    Standard,
    /// A rule by its name.
    Named(String),
}

/// The settings of a space.
#[derive(Debug)]
pub struct SpaceConfig {
    /// Whether anyone may see who takes part in the space.
    pub membership_public: bool,
    /// Everything else.
    pub extra: serde_json::Map<String, serde_json::Value>,
}

impl SpaceConfig {
    /// The settings of a space that asks for none: members are private, and nothing else is said.
    pub fn standard() -> (r: SpaceConfig)
        ensures
            !r.membership_public,
            json_entries(r.extra).dom() == Set::<Seq<char>>::empty(),
    {
        SpaceConfig { membership_public: false, extra: empty_object() }
    }
}

/// A space: data that its members share.
#[derive(Debug)]
pub struct Space {
    pub id: String,
    pub did: String,
    pub authority_did: String,
    pub creator_did: String,
    pub type_nsid: String,
    pub skey: String,
    pub display_name: Option<String>,
    pub description: Option<String>,
    pub mint_policy: MintPolicy,
    pub app_access: AppAccess,
    pub managing_app_did: Option<String>,
    pub config: SpaceConfig,
    pub revision: Option<String>,
    pub created_at: String,
    pub updated_at: String,
}

/// The URI of the space at an address.
pub open spec fn space_uri_text(did: Seq<char>, type_nsid: Seq<char>, skey: Seq<char>) -> Seq<char> {
    "at://"@ + did + "/space/"@ + type_nsid + "/"@ + skey
}

/// The URI of a record: below its space, under the author that wrote it.
pub open spec fn record_uri_text(
    space: Seq<char>,
    author: Seq<char>,
    collection: Seq<char>,
    rkey: Seq<char>,
) -> Seq<char> {
    space + "/"@ + author + "/"@ + collection + "/"@ + rkey
}

impl Space {
    pub open spec fn uri_text(self) -> Seq<char> {
        space_uri_text(self.did@, self.type_nsid@, self.skey@)
    }

    /// The URI of this space.
    pub fn uri(&self) -> (r: String)
        ensures
            r@ == self.uri_text(),
    {
        let mut s = "at://".to_owned();
        s.append(self.did.as_str());
        s.append("/space/");
        s.append(self.type_nsid.as_str());
        s.append("/");
        s.append(self.skey.as_str());
        s
    }
}

/// A member of a space.
#[derive(Debug)]
pub struct SpaceMember {
    pub id: String,
    pub space_id: String,
    pub did: String,
    pub access: SpaceAccess,
    pub is_delegation: bool,
    pub granted_by: Option<String>,
    pub created_at: String,
}

/// A record in a space.
#[derive(Debug)]
pub struct SpaceRecord {
    pub uri: String,
    pub space_id: String,
    pub author_did: String,
    pub collection: String,
    pub rkey: String,
    pub record: serde_json::Value,
    pub cid: String,
    pub indexed_at: String,
}

/// An invitation into a space. Only the digest of its token is kept.
#[derive(Debug)]
pub struct SpaceInvite {
    pub id: String,
    pub space_id: String,
    pub token_hash: String,
    pub created_by: String,
    pub access: SpaceAccess,
    pub max_uses: Option<i64>,
    pub uses: i64,
    pub expires_at: Option<String>,
    pub revoked: bool,
    pub created_at: String,
}

/// What a write did to a record.
#[derive(Debug, Clone, Copy, PartialEq, Eq, Structural)]
pub enum OplogAction {
    Create,
    Update,
    Delete,
}

impl OplogAction {
    pub open spec fn name(self) -> Seq<char> {
        match self {
            OplogAction::Create => "create"@,
            OplogAction::Update => "update"@,
            OplogAction::Delete => "delete"@,
        }
    }

    /// The action by its name in the log.
    pub fn as_str(&self) -> (r: &'static str)
        ensures
            r@ == self.name(),
    {
        match self {
            OplogAction::Create => "create",
            OplogAction::Update => "update",
            OplogAction::Delete => "delete",
        }
    }

    /// The action that a name stands for.
    pub open spec fn named(name: Seq<char>) -> Option<OplogAction> {
        if name == "create"@ {
            Some(OplogAction::Create)
        } else if name == "update"@ {
            Some(OplogAction::Update)
        } else if name == "delete"@ {
            Some(OplogAction::Delete)
        } else {
            None
        }
    }

    /// Reads the name of an action.
    pub fn parse(name: &str) -> (r: Option<OplogAction>)
        ensures
            r == OplogAction::named(name@),
    {
        if same_text(name, "create") {
            Some(OplogAction::Create)
        } else if same_text(name, "update") {
            Some(OplogAction::Update)
        } else if same_text(name, "delete") {
            Some(OplogAction::Delete)
        } else {
            None
        }
    }
}

/// Every action is read back from its name.
pub proof fn law_action_round_trip(action: OplogAction)
    ensures
        OplogAction::named(action.name()) == Some(action),
{
    reveal_strlit("create");
    reveal_strlit("update");
    reveal_strlit("delete");
    assert("create"@[0] != "update"@[0]);
    assert("delete"@[0] != "update"@[0]);
    assert("create"@[0] != "delete"@[0]);
}

/// One operation in a repo's log.
#[derive(Debug)]
pub struct OplogEntry {
    pub id: String,
    pub space_id: String,
    pub author_did: String,
    pub rev: String,
    pub idx: i32,
    pub action: OplogAction,
    pub collection: String,
    pub rkey: String,
    pub cid: Option<String>,
    pub prev: Option<String>,
    pub value: Option<serde_json::Value>,
    pub created_at: String,
}

/// An operation in a repo's log, with texts by their characters.
pub ghost struct EntryView {
    pub id: Seq<char>,
    pub space_id: Seq<char>,
    pub author_did: Seq<char>,
    pub rev: Seq<char>,
    pub idx: i32,
    pub action: OplogAction,
    pub collection: Seq<char>,
    pub rkey: Seq<char>,
    pub cid: Option<Seq<char>>,
    pub prev: Option<Seq<char>>,
    pub value: Option<serde_json::Value>,
    pub created_at: Seq<char>,
}

impl View for OplogEntry {
    type V = EntryView;

    open spec fn view(&self) -> EntryView {
        EntryView {
            id: self.id@,
            space_id: self.space_id@,
            author_did: self.author_did@,
            rev: self.rev@,
            idx: self.idx,
            action: self.action,
            collection: self.collection@,
            rkey: self.rkey@,
            cid: option_text(self.cid),
            prev: option_text(self.prev),
            value: self.value,
            created_at: self.created_at@,
        }
    }
}

/// A list of operations, each by its view.
pub open spec fn entry_views(entries: Seq<OplogEntry>) -> Seq<EntryView> {
    entries.map_values(|e: OplogEntry| e@)
}

} // verus!
