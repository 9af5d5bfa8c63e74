//! Making spaces, changing them, and saying who belongs to them.

use vstd::prelude::*;
use crate::clock::{is_stamp, now_rfc3339};
use crate::error::{AppError, ErrorView};
use crate::ids::{is_random_id, new_id};
use crate::json::{entry, json_entries, json_strings, set_entry, string_array};
use crate::service::{allowed_collections, collection_allowed};
use crate::types::{AppAccess, MintPolicy, Space, SpaceAccess, SpaceConfig, SpaceMember};

verus! {

/// What a space is asked to be.
#[derive(Debug)]
pub struct NewSpace {
    pub did: String,
    pub type_nsid: String,
    pub skey: String,
    pub display_name: Option<String>,
    pub description: Option<String>,
    pub mint_policy: Option<MintPolicy>,
    pub app_access: Option<AppAccess>,
    pub managing_app_did: Option<String>,
    pub config: Option<SpaceConfig>,
}

/// A space on its way into the store.
#[derive(Debug)]
pub enum CreateSpaceStep {
    /// Look for a space at the address that was asked for.
    FindExisting { request: NewSpace },
    /// Read which collections the type of the space declares.
    ReadDeclaration { request: NewSpace },
    /// Store the space.
    Insert { space: Space, member: SpaceMember },
    /// Have the instance publish a key for the credentials of spaces, if it does not do so yet.
    PublishKey { space: Space, member: SpaceMember },
    /// Store the creator's membership.
    AddCreator { space: Space, member: SpaceMember },
    /// The space is there.
    Done { space: Space },
    /// The request is refused.
    Refused { error: AppError },
}

/// The settings that a request states, or those of a space that states none.
pub open spec fn is_stated(config: SpaceConfig, request: Option<SpaceConfig>) -> bool {
    match request {
        Some(c) => config == c,
        None => !config.membership_public && json_entries(config.extra).dom() == Set::<
            Seq<char>,
        >::empty(),
    }
}

/// Whether settings are the stated ones, with the declared collections as the allowed ones where a
/// declaration names any and the settings do not speak of them.
pub open spec fn is_completed(
    config: SpaceConfig,
    stated: SpaceConfig,
    declared: Option<Seq<Seq<char>>>,
) -> bool {
    if declared is Some && declared->0.len() > 0 && !json_entries(stated.extra).contains_key(
        "allowedCollections"@,
    ) {
        &&& config.membership_public == stated.membership_public
        &&& json_entries(config.extra).contains_key("allowedCollections"@)
        &&& json_entries(config.extra) == json_entries(stated.extra).insert(
            "allowedCollections"@,
            json_entries(config.extra)["allowedCollections"@],
        )
        &&& json_strings(json_entries(config.extra)["allowedCollections"@]) == Some(
            declared->0.map_values(|c: Seq<char>| Some(c)),
        )
    } else {
        config == stated
    }
}

/// Texts, each by its characters.
pub open spec fn texts(list: Seq<String>) -> Seq<Seq<char>> {
    list.map_values(|s: String| s@)
}

/// The declared collections that may be missing, by their characters.
pub open spec fn option_list(list: Option<Vec<String>>) -> Option<Seq<Seq<char>>> {
    match list {
        Some(l) => Some(texts(l@)),
        None => None,
    }
}

/// Makes the declared collections the allowed ones, unless the settings speak of them already.
pub fn complete_config(stated: SpaceConfig, declared: Option<Vec<String>>) -> (r: SpaceConfig)
    ensures
        is_completed(r, stated, option_list(declared)),
{
    let mut config = stated;
    if let Some(collections) = declared {
        if collections.len() > 0 && entry(&config.extra, "allowedCollections").is_none() {
            let ghost listed = texts(collections@);
            let ghost values = collections@.map_values(|s: String| Some(s@));
            assert(values =~= listed.map_values(|c: Seq<char>| Some(c)));
            let value = string_array(collections);
            set_entry(&mut config.extra, "allowedCollections", value);
            assert(json_entries(config.extra)["allowedCollections"@] == value);
        }
    }
    config
}

/// Whether a space is what a request asked for, with its creator in charge.
pub open spec fn is_requested(
    space: Space,
    request: NewSpace,
    declared: Option<Seq<Seq<char>>>,
) -> bool {
    &&& is_random_id(space.id@)
    &&& space.did == request.did
    &&& space.authority_did == request.did
    &&& space.creator_did == request.did
    &&& space.type_nsid == request.type_nsid
    &&& space.skey == request.skey
    &&& space.display_name == request.display_name
    &&& space.description == request.description
    &&& space.mint_policy == (match request.mint_policy {
        Some(p) => p,
        None => MintPolicy::MemberList,
    })
    &&& space.app_access == (match request.app_access {
        Some(a) => a,
        None => AppAccess::Standard,
    })
    &&& space.managing_app_did == request.managing_app_did
    &&& exists|stated: SpaceConfig| #[trigger]
        is_stated(stated, request.config) && is_completed(space.config, stated, declared)
    &&& space.revision is None
    &&& is_stamp(space.created_at@)
    &&& is_stamp(space.updated_at@)
}

/// Whether a membership is that of a space's creator, who may write.
pub open spec fn is_creator(member: SpaceMember, space: Space) -> bool {
    &&& is_random_id(member.id@)
    &&& member.space_id == space.id
    &&& member.did == space.creator_did
    &&& member.access == SpaceAccess::Write
    &&& !member.is_delegation
    &&& member.granted_by == Some(space.creator_did)
    &&& is_stamp(member.created_at@)
}

impl CreateSpaceStep {
    /// The first step for a request. A space needs a type and a key.
    pub fn create_space(request: NewSpace) -> (r: CreateSpaceStep)
        ensures
            if request.type_nsid@.len() == 0 || request.skey@.len() == 0 {
                r matches CreateSpaceStep::Refused { error } && error@ == ErrorView::BadRequest(
                    "type and skey are required"@,
                )
            } else {
                r == (CreateSpaceStep::FindExisting { request })
            },
    {
        if request.type_nsid.as_str().unicode_len() == 0 || request.skey.as_str().unicode_len()
            == 0 {
            CreateSpaceStep::Refused { error: AppError::bad_request("type and skey are required") }
        } else {
            CreateSpaceStep::FindExisting { request }
        }
    }

    /// Takes whether there is a space at the address already.
    pub fn existing(self, exists_already: bool) -> (r: CreateSpaceStep)
        requires
            self is FindExisting,
        ensures
            if exists_already {
                r matches CreateSpaceStep::Refused { error } && error@ == ErrorView::Conflict(
                    "A space with this address already exists"@,
                )
            } else {
                r == (CreateSpaceStep::ReadDeclaration { request: self->FindExisting_request })
            },
    {
        match self {
            CreateSpaceStep::FindExisting { request } => if exists_already {
                CreateSpaceStep::Refused {
                    error: AppError::conflict("A space with this address already exists"),
                }
            } else {
                CreateSpaceStep::ReadDeclaration { request }
            },
            other => other,
        }
    }

    /// Takes the collections that the type of the space declares, if it does.
    pub fn declared(self, collections: Option<Vec<String>>) -> (r: CreateSpaceStep)
        requires
            self is ReadDeclaration,
        ensures
            r matches CreateSpaceStep::Insert { space, member } && is_requested(
                space,
                self->ReadDeclaration_request,
                option_list(collections),
            ) && is_creator(member, space),
    {
        match self {
            CreateSpaceStep::ReadDeclaration { request } => {
                let stated = match request.config {
                    Some(c) => c,
                    None => SpaceConfig::standard(),
                };
                let ghost config_before = stated;
                let config = complete_config(stated, collections);
                assert(is_stated(config_before, request.config));
                let space = Space {
                    id: new_id(),
                    authority_did: request.did.clone(),
                    creator_did: request.did.clone(),
                    did: request.did,
                    type_nsid: request.type_nsid,
                    skey: request.skey,
                    display_name: request.display_name,
                    description: request.description,
                    mint_policy: match request.mint_policy {
                        Some(p) => p,
                        None => MintPolicy::MemberList,
                    },
                    app_access: match request.app_access {
                        Some(a) => a,
                        None => AppAccess::Standard,
                    },
                    managing_app_did: request.managing_app_did,
                    config,
                    revision: None,
                    created_at: now_rfc3339(),
                    updated_at: now_rfc3339(),
                };
                let member = SpaceMember {
                    id: new_id(),
                    space_id: space.id.clone(),
                    did: space.creator_did.clone(),
                    access: SpaceAccess::Write,
                    is_delegation: false,
                    granted_by: Some(space.creator_did.clone()),
                    created_at: now_rfc3339(),
                };
                CreateSpaceStep::Insert { space, member }
            },
            other => other,
        }
    }

    /// Takes that the space has been stored. An instance without a key has none to publish.
    pub fn inserted(self, has_key: bool) -> (r: CreateSpaceStep)
        requires
            self is Insert,
        ensures
            r == (if has_key {
                CreateSpaceStep::PublishKey {
                    space: self->Insert_space,
                    member: self->Insert_member,
                }
            } else {
                CreateSpaceStep::AddCreator {
                    space: self->Insert_space,
                    member: self->Insert_member,
                }
            }),
    {
        match self {
            CreateSpaceStep::Insert { space, member } => if has_key {
                CreateSpaceStep::PublishKey { space, member }
            } else {
                CreateSpaceStep::AddCreator { space, member }
            },
            other => other,
        }
    }

    /// Takes that publishing the key has been tried. A space does without it where that failed.
    pub fn key_published(self) -> (r: CreateSpaceStep)
        requires
            self is PublishKey,
        ensures
            r == (CreateSpaceStep::AddCreator {
                space: self->PublishKey_space,
                member: self->PublishKey_member,
            }),
    {
        match self {
            CreateSpaceStep::PublishKey { space, member } => CreateSpaceStep::AddCreator {
                space,
                member,
            },
            other => other,
        }
    }

    /// Takes that the creator has become a member.
    pub fn added(self) -> (r: CreateSpaceStep)
        requires
            self is AddCreator,
        ensures
            r == (CreateSpaceStep::Done { space: self->AddCreator_space }),
    {
        match self {
            CreateSpaceStep::AddCreator { space, .. } => CreateSpaceStep::Done { space },
            other => other,
        }
    }
}

/// A space whose type declares collections takes these and no others, unless its request spoke of
/// the allowed ones itself.
pub proof fn law_declared_collections_are_the_allowed_ones(
    space: Space,
    stated: SpaceConfig,
    declared: Seq<Seq<char>>,
    collection: Seq<char>,
)
    requires
        is_completed(space.config, stated, Some(declared)),
        declared.len() > 0,
        !json_entries(stated.extra).contains_key("allowedCollections"@),
    ensures
        collection_allowed(space, collection) <==> declared.contains(collection),
{
    let allowed = declared.map_values(|c: Seq<char>| Some(c));
    assert(allowed_collections(space) == Some(allowed));
    if allowed.contains(Some(collection)) {
        let i = choose|i: int| 0 <= i < allowed.len() && allowed[i] == Some(collection);
        assert(declared[i] == collection);
    }
    if declared.contains(collection) {
        let i = choose|i: int| 0 <= i < declared.len() && declared[i] == collection;
        assert(allowed[i] == Some(collection));
    }
}

/// The membership that is to be stored, unless there is one already.
pub fn add_member(
    space: &Space,
    actor_did: &str,
    member_did: &str,
    access: Option<SpaceAccess>,
    is_delegation: Option<bool>,
    exists_already: bool,
) -> (r: Result<SpaceMember, AppError>)
    ensures
        match r {
            Err(e) => exists_already && e@ == ErrorView::Conflict(
                "Member already exists in this space"@,
            ),
            Ok(m) => {
                &&& !exists_already
                &&& is_random_id(m.id@)
                &&& m.space_id@ == space.id@
                &&& m.did@ == member_did@
                &&& m.access == (match access {
                    Some(a) => a,
                    None => SpaceAccess::Read,
                })
                &&& m.is_delegation == (is_delegation == Some(true))
                &&& m.granted_by matches Some(g) && g@ == actor_did@
                &&& is_stamp(m.created_at@)
            },
        },
{
    if exists_already {
        return Err(AppError::conflict("Member already exists in this space"));
    }
    Ok(
        SpaceMember {
            id: new_id(),
            space_id: space.id.clone(),
            did: member_did.to_owned(),
            access: match access {
                Some(a) => a,
                None => SpaceAccess::Read,
            },
            is_delegation: match is_delegation {
                Some(d) => d,
                None => false,
            },
            granted_by: Some(actor_did.to_owned()),
            created_at: now_rfc3339(),
        },
    )
}

/// What is to change about a space. What is missing stays as it is.
#[derive(Debug)]
pub struct SpaceChanges {
    pub display_name: Option<Option<String>>,
    pub description: Option<Option<String>>,
    pub mint_policy: Option<MintPolicy>,
    pub app_access: Option<AppAccess>,
    pub managing_app_did: Option<Option<String>>,
    pub config: Option<SpaceConfig>,
}

/// What was asked for, or else what was there.
pub open spec fn changed<T>(asked: Option<T>, before: T) -> T {
    match asked {
        Some(v) => v,
        None => before,
    }
}

/// Changes a space. Its address, its authority and its history stay.
pub fn update_space(space: Space, changes: SpaceChanges) -> (r: Space)
    ensures
        r == (Space {
            display_name: changed(changes.display_name, space.display_name),
            description: changed(changes.description, space.description),
            mint_policy: changed(changes.mint_policy, space.mint_policy),
            app_access: changed(changes.app_access, space.app_access),
            managing_app_did: changed(changes.managing_app_did, space.managing_app_did),
            config: changed(changes.config, space.config),
            ..space
        }),
{
    let mut space = space;
    if let Some(name) = changes.display_name {
        space.display_name = name;
    }
    if let Some(description) = changes.description {
        space.description = description;
    }
    if let Some(policy) = changes.mint_policy {
        space.mint_policy = policy;
    }
    if let Some(access) = changes.app_access {
        space.app_access = access;
    }
    if let Some(did) = changes.managing_app_did {
        space.managing_app_did = did;
    }
    if let Some(config) = changes.config {
        space.config = config;
    }
    space
}

/// A member on the way out. The member's credentials go first: whoever is no member any more holds
/// none that still counts.
#[derive(Debug)]
pub enum RemoveMemberStep {
    /// Revoke the credentials that this member holds for this space.
    RevokeCredentials { space_id: String, did: String },
    /// Remove the membership.
    Remove { space_id: String, did: String },
    /// The member is out.
    Done,
    /// There was no such member.
    Refused { error: AppError },
}

impl RemoveMemberStep {
    /// The first step for a member of a space.
    pub fn remove_member(space: &Space, member_did: &str) -> (r: RemoveMemberStep)
        ensures
            r matches RemoveMemberStep::RevokeCredentials { space_id, did } && space_id@ == space.id@
                && did@ == member_did@,
    {
        RemoveMemberStep::RevokeCredentials {
            space_id: space.id.clone(),
            did: member_did.to_owned(),
        }
    }

    /// Takes that the credentials have been revoked.
    pub fn revoked(self) -> (r: RemoveMemberStep)
        requires
            self is RevokeCredentials,
        ensures
            r == (RemoveMemberStep::Remove {
                space_id: self->RevokeCredentials_space_id,
                did: self->RevokeCredentials_did,
            }),
    {
        match self {
            RemoveMemberStep::RevokeCredentials { space_id, did } => RemoveMemberStep::Remove {
                space_id,
                did,
            },
            other => other,
        }
    }

    /// Takes whether there was a membership to remove.
    pub fn removed(self, found: bool) -> (r: RemoveMemberStep)
        requires
            self is Remove,
        ensures
            if found {
                r is Done
            } else {
                r matches RemoveMemberStep::Refused { error } && error@ == ErrorView::NotFound(
                    "Member not found in this space"@,
                )
            },
    {
        if found {
            RemoveMemberStep::Done
        } else {
            RemoveMemberStep::Refused {
                error: AppError::not_found("Member not found in this space"),
            }
        }
    }
}

/// A space is what was asked for, at the address that was asked for, with the account that asked as its
/// owner, authority and creator. Where nothing was said, credentials go by the list of members, and
/// the usual apps are admitted. It has no history yet.
pub proof fn law_space_is_as_requested(
    space: Space,
    request: NewSpace,
    declared: Option<Seq<Seq<char>>>,
)
    requires
        is_requested(space, request, declared),
    ensures
        is_random_id(space.id@),
        space.did == request.did,
        space.authority_did == request.did,
        space.creator_did == request.did,
        space.type_nsid == request.type_nsid,
        space.skey == request.skey,
        space.uri_text() == "at://"@ + request.did@ + "/space/"@ + request.type_nsid@ + "/"@
            + request.skey@,
        space.display_name == request.display_name,
        space.description == request.description,
        request.mint_policy matches Some(p) ==> space.mint_policy == p,
        request.mint_policy is None ==> space.mint_policy == MintPolicy::MemberList,
        request.app_access matches Some(a) ==> space.app_access == a,
        request.app_access is None ==> space.app_access == AppAccess::Standard,
        space.managing_app_did == request.managing_app_did,
        space.revision is None,
        is_stamp(space.created_at@),
        is_stamp(space.updated_at@),
{
}

/// The creator of a space becomes a member that writes, by its own grant, and gets in to write.
pub proof fn law_creator_may_write(member: SpaceMember, space: Space, space_uri: Seq<char>)
    requires
        is_creator(member, space),
    ensures
        is_random_id(member.id@),
        member.space_id == space.id,
        member.did == space.creator_did,
        member.access == SpaceAccess::Write,
        !member.is_delegation,
        member.granted_by == Some(space.creator_did),
        is_stamp(member.created_at@),
        crate::access::admission(space_uri, true, false, None, false, Some(member.access)) is Ok,
{
}

/// Whether the members of a space are public is what the request stated, and they are not where it stated
/// nothing; no declaration changes that.
pub proof fn law_members_are_public_only_on_request(
    space: Space,
    request: NewSpace,
    declared: Option<Seq<Seq<char>>>,
)
    requires
        is_requested(space, request, declared),
    ensures
        space.config.membership_public <==> request.config is Some
            && request.config->0.membership_public,
{
}

/// A declaration adds the allowed collections to the settings and changes nothing else about them. It
/// adds nothing where it names no collection, or where the settings speak of the allowed ones already.
pub proof fn law_declaration_adds_only_the_collections(
    config: SpaceConfig,
    stated: SpaceConfig,
    declared: Option<Seq<Seq<char>>>,
    key: Seq<char>,
)
    requires
        is_completed(config, stated, declared),
    ensures
        config.membership_public == stated.membership_public,
        declared is None ==> config == stated,
        declared is Some && declared->0.len() == 0 ==> config == stated,
        json_entries(stated.extra).contains_key("allowedCollections"@) ==> config == stated,
        key != "allowedCollections"@ ==> (json_entries(config.extra).contains_key(key)
            <==> json_entries(stated.extra).contains_key(key)),
        key != "allowedCollections"@ && json_entries(stated.extra).contains_key(key) ==> json_entries(
            config.extra,
        )[key] == json_entries(stated.extra)[key],
{
}

/// What is asked for replaces what was there, and what is not asked for stays.
pub proof fn law_changes_change_what_is_asked_for<T>(asked: T, before: T)
    ensures
        changed(Some(asked), before) == asked,
        changed(None, before) == before,
{
}

/// A space whose request states no settings, and whose type declares no collections, has none beyond the
/// usual: its members are private, and it takes every collection.
pub proof fn law_silent_request_gets_the_usual(
    space: Space,
    request: NewSpace,
    collection: Seq<char>,
)
    requires
        is_requested(space, request, None),
        request.config is None,
    ensures
        !space.config.membership_public,
        json_entries(space.config.extra).dom() == Set::<Seq<char>>::empty(),
        collection_allowed(space, collection),
{
    assert(!json_entries(space.config.extra).dom().contains("allowedCollections"@));
}

/// A space whose request states its settings, allowed collections among them, has just these.
pub proof fn law_stated_settings_are_kept(
    space: Space,
    request: NewSpace,
    declared: Option<Seq<Seq<char>>>,
)
    requires
        is_requested(space, request, declared),
        request.config is Some,
        json_entries(request.config->0.extra).contains_key("allowedCollections"@) || declared is None,
    ensures
        space.config == request.config->0,
{
}

/// Declared collections are taken one for one and in order, and none as none.
pub proof fn law_declared_collections_are_taken_in_order(list: Vec<String>, i: int)
    requires
        0 <= i < list.len(),
    ensures
        option_list(Some(list)) is Some,
        option_list(Some(list))->0.len() == list.len(),
        option_list(Some(list))->0[i] == list@[i]@,
        option_list(None) is None,
{
}

} // verus!
