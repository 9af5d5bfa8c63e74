//! Invitations into a space. Whoever holds a token may join; the store keeps only its digest.

use vstd::prelude::*;
use crate::clock::{is_stamp, now_rfc3339};
use crate::error::{AppError, ErrorView};
use crate::ids::{hex_string, hex_text, is_random_id, new_id, random_secret, token_digest, token_hash};
use crate::text::{option_text, sorts_before, text_less};
use crate::types::{Space, SpaceAccess, SpaceInvite, SpaceMember};

verus! {

/// Whether an invitation is a fresh one on these terms, and keeps the digest of this token.
pub open spec fn is_fresh_invite(
    invite: SpaceInvite,
    token: Seq<char>,
    space: Space,
    actor_did: Seq<char>,
    access: Option<SpaceAccess>,
    max_uses: Option<i64>,
    expires_at: Option<String>,
) -> bool {
    &&& is_random_id(invite.id@)
    &&& invite.space_id@ == space.id@
    &&& invite.token_hash@ == token_digest(token)
    &&& invite.created_by@ == actor_did
    &&& invite.access == (match access {
        Some(a) => a,
        None => SpaceAccess::Read,
    })
    &&& invite.max_uses == max_uses
    &&& invite.uses == 0
    &&& invite.expires_at == expires_at
    &&& !invite.revoked
    &&& is_stamp(invite.created_at@)
}

/// Makes an invitation around a secret, and the token that opens it: the secret in hexadecimal.
pub fn invite_with_secret(
    secret: [u8; 24],
    space: &Space,
    actor_did: &str,
    access: Option<SpaceAccess>,
    max_uses: Option<i64>,
    expires_at: Option<String>,
) -> (r: (SpaceInvite, String))
    ensures
        r.1@ == hex_text(secret@),
        is_fresh_invite(r.0, r.1@, *space, actor_did@, access, max_uses, expires_at),
{
    let token = hex_string(&secret);
    let invite = SpaceInvite {
        id: new_id(),
        space_id: space.id.clone(),
        token_hash: token_hash(token.as_str()),
        created_by: actor_did.to_owned(),
        access: match access {
            Some(a) => a,
            None => SpaceAccess::Read,
        },
        max_uses,
        uses: 0,
        expires_at,
        revoked: false,
        created_at: now_rfc3339(),
    };
    (invite, token)
}

/// Makes an invitation around a secret drawn at random.
pub fn create_invite(
    space: &Space,
    actor_did: &str,
    access: Option<SpaceAccess>,
    max_uses: Option<i64>,
    expires_at: Option<String>,
) -> (r: (SpaceInvite, String))
    ensures
        exists|secret: Seq<u8>| secret.len() == 24 && r.1@ == #[trigger] hex_text(secret),
        is_fresh_invite(r.0, r.1@, *space, actor_did@, access, max_uses, expires_at),
{
    let secret = random_secret();
    invite_with_secret(secret, space, actor_did, access, max_uses, expires_at)
}

/// Joining a space with a token.
#[derive(Debug)]
pub enum AcceptStep {
    /// Look up the invitation with this digest.
    FindInvite { token_hash: String, did: String },
    /// Look for a membership of this account.
    FindMember { invite: SpaceInvite, did: String },
    /// Store the membership.
    AddMember { invite: SpaceInvite, member: SpaceMember },
    /// Count the use of the invitation.
    CountUse { invite: SpaceInvite, access: SpaceAccess },
    /// Look up the space that has been joined.
    FindSpace { space_id: String, access: SpaceAccess },
    /// The account is a member now.
    Done { uri: String, access: SpaceAccess },
    /// The request is refused.
    Refused { error: AppError },
}

/// Whether the time for an invitation is over.
pub open spec fn has_expired(invite: SpaceInvite, now: Seq<char>) -> bool {
    invite.expires_at matches Some(at) && text_less(at@, now)
}

/// Whether an invitation has been used as often as it may be.
pub open spec fn is_used_up(invite: SpaceInvite) -> bool {
    invite.max_uses matches Some(max) && invite.uses >= max
}

/// Whether an invitation can be taken up, or why it cannot.
pub open spec fn opened(found: Option<SpaceInvite>, now: Seq<char>) -> Result<SpaceInvite, ErrorView> {
    match found {
        None => Err(ErrorView::NotFound("Invalid invite token"@)),
        Some(invite) => if invite.revoked {
            Err(ErrorView::BadRequest("This invite has been revoked"@))
        } else if is_used_up(invite) {
            Err(ErrorView::BadRequest("This invite has reached its maximum uses"@))
        } else if has_expired(invite, now) {
            Err(ErrorView::BadRequest("This invite has expired"@))
        } else {
            Ok(invite)
        },
    }
}

/// Every answer that joining can meet.
pub ghost struct Answers {
    /// The invitation that the token opens.
    pub invite: Option<SpaceInvite>,
    /// The time by then.
    pub now: Seq<char>,
    /// Whether the account is a member already.
    pub is_member: bool,
    /// The space of the invitation, once the account is a member.
    pub space: Option<Space>,
}

/// What joining comes to: the URI of the space, and the access to it.
pub type Joined = (Seq<char>, SpaceAccess);

/// How joining ends.
pub open spec fn accepted(a: Answers) -> Result<Joined, ErrorView> {
    match opened(a.invite, a.now) {
        Err(e) => Err(e),
        Ok(invite) => if a.is_member {
            Err(ErrorView::Conflict("You are already a member of this space"@))
        } else {
            joined(invite.access, a.space)
        },
    }
}

/// What joining comes to for a membership that has been stored.
pub open spec fn joined(access: SpaceAccess, space: Option<Space>) -> Result<Joined, ErrorView> {
    match space {
        Some(s) => Ok((s.uri_text(), access)),
        None => Err(ErrorView::Internal("space vanished after member insert"@)),
    }
}

/// Whether a membership is what an invitation grants to an account.
pub open spec fn is_granted(member: SpaceMember, invite: SpaceInvite, did: Seq<char>) -> bool {
    &&& is_random_id(member.id@)
    &&& member.space_id@ == invite.space_id@
    &&& member.did@ == did
    &&& member.access == invite.access
    &&& !member.is_delegation
    &&& option_text(member.granted_by) == Some(invite.created_by@)
    &&& is_stamp(member.created_at@)
}

impl AcceptStep {
    /// What this step comes to, given the answers that are still to come.
    pub open spec fn leads_to(self, a: Answers) -> Result<Joined, ErrorView> {
        match self {
            AcceptStep::FindInvite { .. } => accepted(a),
            AcceptStep::FindMember { invite, .. } => if a.is_member {
                Err(ErrorView::Conflict("You are already a member of this space"@))
            } else {
                joined(invite.access, a.space)
            },
            AcceptStep::AddMember { member, .. } => joined(member.access, a.space),
            AcceptStep::CountUse { access, .. } => joined(access, a.space),
            AcceptStep::FindSpace { access, .. } => joined(access, a.space),
            AcceptStep::Done { uri, access } => Ok((uri@, access)),
            AcceptStep::Refused { error } => Err(error@),
        }
    }

    /// The first step for an account that holds a token.
    pub fn accept_invite(did: &str, token: &str) -> (r: AcceptStep)
        ensures
            r matches AcceptStep::FindInvite { token_hash: h, did: d } && h@ == token_digest(token@)
                && d@ == did@,
            forall|a: Answers| #[trigger] r.leads_to(a) == accepted(a),
    {
        AcceptStep::FindInvite { token_hash: token_hash(token), did: did.to_owned() }
    }

    /// Takes the invitation that the token opens, at a time.
    pub fn invite_at(self, found: Option<SpaceInvite>, now: &str) -> (r: AcceptStep)
        requires
            self is FindInvite,
        ensures
            match opened(found, now@) {
                Err(e) => r matches AcceptStep::Refused { error } && error@ == e,
                Ok(i) => r == (AcceptStep::FindMember { invite: i, did: self->FindInvite_did }),
            },
            forall|a: Answers|
                a.invite == found && a.now == now@ ==> #[trigger] r.leads_to(a) == self.leads_to(a),
    {
        match self {
            AcceptStep::FindInvite { did, .. } => match found {
                None => AcceptStep::Refused { error: AppError::not_found("Invalid invite token") },
                Some(invite) => {
                    if invite.revoked {
                        return AcceptStep::Refused {
                            error: AppError::bad_request("This invite has been revoked"),
                        };
                    }
                    if let Some(max) = invite.max_uses {
                        if invite.uses >= max {
                            return AcceptStep::Refused {
                                error: AppError::bad_request(
                                    "This invite has reached its maximum uses",
                                ),
                            };
                        }
                    }
                    if let Some(expires) = &invite.expires_at {
                        if sorts_before(expires.as_str(), now) {
                            return AcceptStep::Refused {
                                error: AppError::bad_request("This invite has expired"),
                            };
                        }
                    }
                    AcceptStep::FindMember { invite, did }
                },
            },
            other => other,
        }
    }

    /// Takes the invitation that the token opens, at this time.
    pub fn invite(self, found: Option<SpaceInvite>) -> (r: AcceptStep)
        requires
            self is FindInvite,
        ensures
            exists|now: Seq<char>| #[trigger]
                is_stamp(now) && match opened(found, now) {
                    Err(e) => r matches AcceptStep::Refused { error } && error@ == e,
                    Ok(i) => r == (AcceptStep::FindMember { invite: i, did: self->FindInvite_did }),
                },
    {
        let now = now_rfc3339();
        self.invite_at(found, now.as_str())
    }

    /// Takes whether the account is a member already.
    pub fn member(self, is_member: bool) -> (r: AcceptStep)
        requires
            self is FindMember,
        ensures
            if is_member {
                r matches AcceptStep::Refused { error } && error@ == ErrorView::Conflict(
                    "You are already a member of this space"@,
                )
            } else {
                r matches AcceptStep::AddMember { invite, member } && invite
                    == self->FindMember_invite && is_granted(
                    member,
                    invite,
                    self->FindMember_did@,
                )
            },
            forall|a: Answers|
                a.is_member == is_member ==> #[trigger] r.leads_to(a) == self.leads_to(a),
    {
        match self {
            AcceptStep::FindMember { invite, did } => {
                if is_member {
                    return AcceptStep::Refused {
                        error: AppError::conflict("You are already a member of this space"),
                    };
                }
                let member = SpaceMember {
                    id: new_id(),
                    space_id: invite.space_id.clone(),
                    did,
                    access: invite.access,
                    is_delegation: false,
                    granted_by: Some(invite.created_by.clone()),
                    created_at: now_rfc3339(),
                };
                AcceptStep::AddMember { invite, member }
            },
            other => other,
        }
    }

    /// Takes that the membership has been stored.
    pub fn added(self) -> (r: AcceptStep)
        requires
            self is AddMember,
        ensures
            r == (AcceptStep::CountUse {
                invite: self->AddMember_invite,
                access: self->AddMember_member.access,
            }),
            forall|a: Answers| #[trigger] r.leads_to(a) == self.leads_to(a),
    {
        match self {
            AcceptStep::AddMember { invite, member } => AcceptStep::CountUse {
                invite,
                access: member.access,
            },
            other => other,
        }
    }

    /// Takes that the use has been counted.
    pub fn counted(self) -> (r: AcceptStep)
        requires
            self is CountUse,
        ensures
            r == (AcceptStep::FindSpace {
                space_id: self->CountUse_invite.space_id,
                access: self->CountUse_access,
            }),
            forall|a: Answers| #[trigger] r.leads_to(a) == self.leads_to(a),
    {
        match self {
            AcceptStep::CountUse { invite, access } => AcceptStep::FindSpace {
                space_id: invite.space_id,
                access,
            },
            other => other,
        }
    }

    /// Takes the space that has been joined.
    pub fn space(self, found: Option<Space>) -> (r: AcceptStep)
        requires
            self is FindSpace,
        ensures
            match joined(self->FindSpace_access, found) {
                Ok(j) => r matches AcceptStep::Done { uri, access } && uri@ == j.0 && access == j.1,
                Err(e) => r matches AcceptStep::Refused { error } && error@ == e,
            },
            forall|a: Answers| a.space == found ==> #[trigger] r.leads_to(a) == self.leads_to(a),
    {
        match self {
            AcceptStep::FindSpace { access, .. } => match found {
                Some(space) => AcceptStep::Done { uri: space.uri(), access },
                None => AcceptStep::Refused {
                    error: AppError::internal("space vanished after member insert"),
                },
            },
            other => other,
        }
    }
}

/// A fresh invitation is found again by the token that was handed out with it, and lets an account in
/// that is no member yet, with the access that it was made for, while it has not expired and allows
/// a use.
pub proof fn law_fresh_invite_lets_in(
    invite: SpaceInvite,
    token: Seq<char>,
    space: Space,
    actor_did: Seq<char>,
    access: Option<SpaceAccess>,
    max_uses: Option<i64>,
    expires_at: Option<String>,
    now: Seq<char>,
)
    requires
        is_fresh_invite(invite, token, space, actor_did, access, max_uses, expires_at),
        max_uses is None || max_uses->0 > 0,
        expires_at is None || !text_less(expires_at->0@, now),
    ensures
        invite.token_hash@ == token_digest(token),
        accepted(Answers { invite: Some(invite), now, is_member: false, space: Some(space) }) == Ok::<
            Joined,
            ErrorView,
        >(
            (
                space.uri_text(),
                match access {
                    Some(a) => a,
                    None => SpaceAccess::Read,
                },
            ),
        ),
{
}

/// An invitation that was revoked, is used up or has expired lets nobody in.
pub proof fn law_spent_invite_lets_nobody_in(a: Answers)
    requires
        a.invite matches Some(i) && (i.revoked || is_used_up(i) || has_expired(i, a.now)),
    ensures
        accepted(a) matches Err(e) && e is BadRequest,
{
}

/// What became of taking an invitation back: there has to be one.
pub fn revoke_invite(revoked: bool) -> (r: Result<(), AppError>)
    ensures
        match r {
            Ok(_) => revoked,
            Err(e) => !revoked && e@ == ErrorView::NotFound("Invite not found"@),
        },
{
    if revoked {
        Ok(())
    } else {
        Err(AppError::not_found("Invite not found"))
    }
}

/// What is shown of an invitation. The digest of its token is not.
#[derive(Debug)]
pub struct InviteSummary {
    pub id: String,
    pub access: SpaceAccess,
    pub max_uses: Option<i64>,
    pub uses: i64,
    pub expires_at: Option<String>,
    pub revoked: bool,
    pub created_by: String,
    pub created_at: String,
}

/// Whether this is what is shown of an invitation.
pub open spec fn is_summary(summary: InviteSummary, invite: SpaceInvite) -> bool {
    summary == (InviteSummary {
        id: invite.id,
        access: invite.access,
        max_uses: invite.max_uses,
        uses: invite.uses,
        expires_at: invite.expires_at,
        revoked: invite.revoked,
        created_by: invite.created_by,
        created_at: invite.created_at,
    })
}

/// Shows the invitations of a space, in order.
pub fn list_invites(invites: &Vec<SpaceInvite>) -> (r: Vec<InviteSummary>)
    ensures
        r.len() == invites.len(),
        forall|i: int| 0 <= i < r.len() ==> is_summary(#[trigger] r@[i], invites@[i]),
{
    let mut out: Vec<InviteSummary> = Vec::new();
    let mut i: usize = 0;
    while i < invites.len()
        invariant
            i <= invites.len(),
            out.len() == i,
            forall|j: int| 0 <= j < i ==> is_summary(#[trigger] out@[j], invites@[j]),
        decreases invites.len() - i,
    {
        let invite = &invites[i];
        out.push(
            InviteSummary {
                id: invite.id.clone(),
                access: invite.access,
                max_uses: invite.max_uses,
                uses: invite.uses,
                expires_at: invite.expires_at.clone(),
                revoked: invite.revoked,
                created_by: invite.created_by.clone(),
                created_at: invite.created_at.clone(),
            },
        );
        i = i + 1;
    }
    out
}

/// An invitation that is not revoked, has not expired, and has been used less often than it allows lets
/// an account in that is no member yet, with the access that it grants. How often it has been used
/// before does not matter beyond that.
pub proof fn law_open_invite_lets_in(invite: SpaceInvite, now: Seq<char>, space: Space)
    requires
        !invite.revoked,
        invite.max_uses matches Some(max) ==> invite.uses < max,
        invite.expires_at matches Some(at) ==> !text_less(at@, now),
    ensures
        opened(Some(invite), now) == Ok::<SpaceInvite, ErrorView>(invite),
        accepted(Answers { invite: Some(invite), now, is_member: false, space: Some(space) }) == Ok::<
            Joined,
            ErrorView,
        >((space.uri_text(), invite.access)),
        accepted(Answers { invite: Some(invite), now, is_member: true, space: Some(space) })
            == Err::<Joined, ErrorView>(
            ErrorView::Conflict("You are already a member of this space"@),
        ),
        accepted(Answers { invite: Some(invite), now, is_member: false, space: None }) == Err::<
            Joined,
            ErrorView,
        >(ErrorView::Internal("space vanished after member insert"@)),
{
}

/// An invitation lets nobody in once it has been used as often as it allows, once it was revoked, or
/// once its time is over, and each refusal says which it was: being revoked before being used up, and
/// being used up before being late. A token that opens nothing is told apart from all of these.
pub proof fn law_closed_invite_says_why(
    invite: SpaceInvite,
    now: Seq<char>,
    is_member: bool,
    space: Option<Space>,
)
    ensures
        ({
            let outcome = accepted(Answers { invite: Some(invite), now, is_member, space });
            let is_used = invite.max_uses is Some && invite.uses >= invite.max_uses->0;
            let is_late = invite.expires_at is Some && text_less(invite.expires_at->0@, now);
            &&& invite.revoked ==> outcome == Err::<Joined, ErrorView>(
                ErrorView::BadRequest("This invite has been revoked"@),
            )
            &&& !invite.revoked && is_used ==> outcome == Err::<Joined, ErrorView>(
                ErrorView::BadRequest("This invite has reached its maximum uses"@),
            )
            &&& !invite.revoked && !is_used && is_late ==> outcome == Err::<Joined, ErrorView>(
                ErrorView::BadRequest("This invite has expired"@),
            )
        }),
        accepted(Answers { invite: None, now, is_member, space }) == Err::<Joined, ErrorView>(
            ErrorView::NotFound("Invalid invite token"@),
        ),
{
}

/// An invitation that allows a number of uses lets in exactly so many: counted up from none, it is open
/// before each of them, and closed behind the last.
pub proof fn law_invite_allows_so_many_uses(invite: SpaceInvite, used: SpaceInvite, now: Seq<char>)
    requires
        used == (SpaceInvite { uses: used.uses, ..invite }),
        invite.uses == 0,
        invite.max_uses matches Some(max) && max > 0,
        opened(Some(invite), now) is Ok,
    ensures
        opened(Some(used), now) is Ok <==> used.uses < invite.max_uses->0,
{
}

/// A fresh invitation is on the terms that it was asked for: into this space, by this account, with
/// this access, or that of a reader where none was asked for, and not yet used or revoked.
pub proof fn law_fresh_invite_keeps_its_terms(
    invite: SpaceInvite,
    token: Seq<char>,
    space: Space,
    actor_did: Seq<char>,
    access: Option<SpaceAccess>,
    max_uses: Option<i64>,
    expires_at: Option<String>,
)
    requires
        is_fresh_invite(invite, token, space, actor_did, access, max_uses, expires_at),
    ensures
        is_random_id(invite.id@),
        invite.space_id@ == space.id@,
        invite.token_hash@ == token_digest(token),
        invite.created_by@ == actor_did,
        access matches Some(a) ==> invite.access == a,
        access is None ==> invite.access == SpaceAccess::Read,
        invite.max_uses == max_uses,
        invite.uses == 0,
        invite.expires_at == expires_at,
        !invite.revoked,
        is_stamp(invite.created_at@),
{
}

/// Whoever joins by an invitation becomes a member of its space, with its access and nothing more, by
/// grant of the account that made it.
pub proof fn law_invite_grants_what_it_says(
    member: SpaceMember,
    invite: SpaceInvite,
    did: Seq<char>,
)
    requires
        is_granted(member, invite, did),
    ensures
        is_random_id(member.id@),
        member.space_id@ == invite.space_id@,
        member.did@ == did,
        member.access == invite.access,
        !member.is_delegation,
        member.granted_by is Some,
        member.granted_by->0@ == invite.created_by@,
        is_stamp(member.created_at@),
{
}

/// What is shown of an invitation is its own, each part under its own name.
pub proof fn law_summary_shows_the_invite(summary: InviteSummary, invite: SpaceInvite)
    requires
        is_summary(summary, invite),
    ensures
        summary.id == invite.id,
        summary.access == invite.access,
        summary.max_uses == invite.max_uses,
        summary.uses == invite.uses,
        summary.expires_at == invite.expires_at,
        summary.revoked == invite.revoked,
        summary.created_by == invite.created_by,
        summary.created_at == invite.created_at,
{
}

} // verus!
