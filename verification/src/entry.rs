//! Entering a space: the way that every request to a space's records takes first.
//!
//! The caller is named, the space is found, and the caller is admitted to it, in this order: nobody
//! who is not known learns whether a space exists, and nobody who is not admitted gets further.

use vstd::prelude::*;
use crate::access::{
    admission, caller, is_admin, is_super_query, notify_caller, require_auth, require_notify_caller,
    unauthenticated, vouched, AdminStep, AuthStep, MembershipStep, XrpcClaims,
};
use crate::error::{AppError, ErrorView};
use crate::ids::token_digest;
use crate::text::option_text;
use crate::types::{Space, SpaceAccess};

verus! {

/// The way into a space.
#[derive(Debug)]
pub enum EntryStep {
    /// Naming the caller.
    Authenticate { auth: AuthStep, credential: Option<String>, write: bool },
    /// The caller is known: look the space up.
    Resolve { did: String, credential: Option<String>, write: bool },
    /// The space is found: admit the caller to it.
    Admit { membership: MembershipStep, did: String, space: Space },
    /// The caller is in.
    Open { did: String, space: Space, access: SpaceAccess },
    /// The request is refused.
    Refused { error: AppError },
}

/// What has to be asked before the next step.
#[derive(Debug)]
pub enum Question {
    /// Whom does this credential speak for, if it holds?
    Verify { token: String },
    /// Has the credential with this digest been revoked?
    Revoked { token_hash: String },
    /// Which space does the request name?
    Space,
    /// What access has this member of this space?
    Member { space_id: String, did: String },
    /// Nothing: the way has come to its end.
    Nothing,
}

/// Every answer that a way into a space can meet. Those that it does not ask for do not matter.
pub ghost struct Answers {
    /// Whom the credential speaks for when it names the caller, or why it does not hold.
    pub caller: Result<Seq<char>, ErrorView>,
    /// Whether it has been revoked by then.
    pub caller_revoked: bool,
    /// The space that the request names.
    pub space: Option<Space>,
    /// Whom the credential speaks for when it is held against the space.
    pub credential: Option<Seq<char>>,
    /// Whether it has been revoked by then.
    pub credential_revoked: bool,
    /// The caller's membership.
    pub member: Option<SpaceAccess>,
}

/// What holds once a caller is in: who, where, and with what access.
pub type Entered = (Seq<char>, Space, SpaceAccess);

/// The space that was looked up, or that there is none.
pub open spec fn found_space(found: Option<Space>) -> Result<Space, ErrorView> {
    match found {
        Some(space) => Ok(space),
        None => Err(ErrorView::NotFound("Space not found"@)),
    }
}

/// The space that a lookup by address came back with.
pub fn resolve_space(found: Option<Space>) -> (r: Result<Space, AppError>)
    ensures
        match r {
            Ok(space) => found_space(found) == Ok::<Space, ErrorView>(space),
            Err(e) => found_space(found) == Err::<Space, ErrorView>(e@),
        },
{
    match found {
        Some(space) => Ok(space),
        None => Err(AppError::not_found("Space not found")),
    }
}

/// How a request to enter a space ends.
pub open spec fn entry(claims: XrpcClaims, write: bool, a: Answers) -> Result<Entered, ErrorView> {
    match caller(claims, a.caller, a.caller_revoked) {
        Err(e) => Err(e),
        Ok(did) => admitted(did, claims.space_credential is Some, write, a),
    }
}

/// How a request ends whose caller is known.
pub open spec fn admitted(did: Seq<char>, has_credential: bool, write: bool, a: Answers) -> Result<
    Entered,
    ErrorView,
> {
    match found_space(a.space) {
        Err(e) => Err(e),
        Ok(space) => match admission(
            space.uri_text(),
            write,
            has_credential,
            a.credential,
            a.credential_revoked,
            a.member,
        ) {
            Err(e) => Err(e),
            Ok(access) => Ok((did, space, access)),
        },
    }
}

/// How a request to enter a space ends where only the account behind it counts: a space credential is
/// not looked at.
pub open spec fn account_entry(claims: XrpcClaims, write: bool, a: Answers) -> Result<
    Entered,
    ErrorView,
> {
    match account(claims) {
        Err(e) => Err(e),
        Ok(did) => admitted(did, false, write, a),
    }
}

impl EntryStep {
    /// What this step comes to, given the answers that are still to come.
    pub open spec fn leads_to(self, a: Answers) -> Result<Entered, ErrorView> {
        match self {
            EntryStep::Authenticate { auth, credential, write } => match auth.leads_to(
                a.caller,
                a.caller_revoked,
            ) {
                Err(e) => Err(e),
                Ok(did) => admitted(did, credential is Some, write, a),
            },
            EntryStep::Resolve { did, credential, write } => admitted(
                did@,
                credential is Some,
                write,
                a,
            ),
            EntryStep::Admit { membership, did, space } => match membership.leads_to(
                a.credential,
                a.credential_revoked,
                a.member,
            ) {
                Err(e) => Err(e),
                Ok(access) => Ok((did@, space, access)),
            },
            EntryStep::Open { did, space, access } => Ok((did@, space, access)),
            EntryStep::Refused { error } => Err(error@),
        }
    }

    /// How many answers may still be needed.
    pub open spec fn distance(self) -> nat {
        match self {
            EntryStep::Authenticate { auth, .. } => if auth is Verify {
                6
            } else {
                5
            },
            EntryStep::Resolve { .. } => 4,
            EntryStep::Admit { membership, .. } => if membership is VerifyCredential {
                3
            } else if membership is CheckRevoked {
                2
            } else {
                1
            },
            _ => 0,
        }
    }

    /// Whether this step asks whom a credential speaks for.
    pub open spec fn asks_whom(self) -> bool {
        match self {
            EntryStep::Authenticate { auth, .. } => auth is Verify,
            EntryStep::Admit { membership, .. } => membership is VerifyCredential,
            _ => false,
        }
    }

    /// Whether this step asks if a credential has been revoked.
    pub open spec fn asks_revoked(self) -> bool {
        match self {
            EntryStep::Authenticate { auth, .. } => auth is CheckRevoked,
            EntryStep::Admit { membership, .. } => membership is CheckRevoked,
            _ => false,
        }
    }

    /// Whether what this step asks about a credential is asked about this one: whom it speaks for by
    /// the credential itself, and whether it has been revoked by its digest.
    pub open spec fn asks_about(self, presented: Option<Seq<char>>) -> bool {
        match self {
            EntryStep::Authenticate { auth, credential, .. } => option_text(credential) == presented
                && match auth {
                AuthStep::Verify { token } => presented == Some(token@),
                AuthStep::CheckRevoked { token_hash, .. } => presented matches Some(t) && token_hash@
                    == token_digest(t),
                _ => true,
            },
            EntryStep::Resolve { credential, .. } => option_text(credential) == presented,
            EntryStep::Admit { membership, .. } => match membership {
                MembershipStep::VerifyCredential { token, .. } => presented == Some(token@),
                MembershipStep::CheckRevoked { token_hash, .. } => presented matches Some(t)
                    && token_hash@ == token_digest(t),
                _ => true,
            },
            _ => true,
        }
    }

    /// A way is in order while it stands before a question, or at its end.
    pub open spec fn wf(self) -> bool {
        match self {
            EntryStep::Authenticate { auth, .. } => auth is Verify || auth is CheckRevoked,
            EntryStep::Admit { membership, .. } => membership is VerifyCredential || membership
                is CheckRevoked || membership is LookUpMember,
            _ => true,
        }
    }

    /// What this step asks.
    pub fn question(&self) -> (r: Question)
        requires
            self.wf(),
        ensures
            match *self {
                EntryStep::Authenticate { auth, .. } => match auth {
                    AuthStep::Verify { token: t } => r matches Question::Verify { token } && token@
                        == t@,
                    AuthStep::CheckRevoked { token_hash: h, .. } => r matches Question::Revoked {
                        token_hash,
                    } && token_hash@ == h@,
                    _ => false,
                },
                EntryStep::Resolve { .. } => r is Space,
                EntryStep::Admit { membership, did: d, space } => match membership {
                    MembershipStep::VerifyCredential { token: t, .. } => r matches Question::Verify {
                        token,
                    } && token@ == t@,
                    MembershipStep::CheckRevoked { token_hash: h, .. } => r matches Question::Revoked {
                        token_hash,
                    } && token_hash@ == h@,
                    _ => r matches Question::Member { space_id, did } && space_id@ == space.id@
                        && did@ == d@,
                },
                _ => r is Nothing,
            },
    {
        match self {
            EntryStep::Authenticate { auth, .. } => match auth {
                AuthStep::Verify { token } => Question::Verify { token: token.clone() },
                AuthStep::CheckRevoked { token_hash, .. } => Question::Revoked {
                    token_hash: token_hash.clone(),
                },
                _ => Question::Nothing,
            },
            EntryStep::Resolve { .. } => Question::Space,
            EntryStep::Admit { membership, did, space } => match membership {
                MembershipStep::VerifyCredential { token, .. } => Question::Verify {
                    token: token.clone(),
                },
                MembershipStep::CheckRevoked { token_hash, .. } => Question::Revoked {
                    token_hash: token_hash.clone(),
                },
                _ => Question::Member { space_id: space.id.clone(), did: did.clone() },
            },
            _ => Question::Nothing,
        }
    }

    fn after_auth(auth: AuthStep, credential: Option<String>, write: bool) -> (r: EntryStep)
        ensures
            r == (match auth {
                AuthStep::Known { did } => EntryStep::Resolve { did, credential, write },
                AuthStep::Refused { error } => EntryStep::Refused { error },
                _ => EntryStep::Authenticate { auth, credential, write },
            }),
    {
        match auth {
            AuthStep::Known { did } => EntryStep::Resolve { did, credential, write },
            AuthStep::Refused { error } => EntryStep::Refused { error },
            auth => EntryStep::Authenticate { auth, credential, write },
        }
    }

    fn after_membership(membership: MembershipStep, did: String, space: Space) -> (r: EntryStep)
        ensures
            r == (match membership {
                MembershipStep::Admitted { access } => EntryStep::Open { did, space, access },
                MembershipStep::Refused { error } => EntryStep::Refused { error },
                _ => EntryStep::Admit { membership, did, space },
            }),
    {
        match membership {
            MembershipStep::Admitted { access } => EntryStep::Open { did, space, access },
            MembershipStep::Refused { error } => EntryStep::Refused { error },
            membership => EntryStep::Admit { membership, did, space },
        }
    }

    /// The first step for a request, which writes or only reads.
    pub fn enter(claims: &XrpcClaims, write: bool) -> (r: EntryStep)
        ensures
            r.wf(),
            forall|a: Answers| #[trigger] r.leads_to(a) == entry(*claims, write, a),
            r.asks_about(option_text(claims.space_credential)),
            claims.identity is None && claims.space_credential is None ==> r is Refused,
    {
        let auth = AuthStep::require_auth_or_credential(claims);
        let ghost first = auth;
        let r = EntryStep::after_auth(auth, claims.space_credential.clone(), write);
        assert forall|a: Answers| #[trigger] r.leads_to(a) == entry(*claims, write, a) by {
            assert(first.leads_to(a.caller, a.caller_revoked) == caller(
                *claims,
                a.caller,
                a.caller_revoked,
            ));
        }
        r
    }

    /// The first step for a request in which only the account behind it counts.
    pub fn enter_account(claims: &XrpcClaims, write: bool) -> (r: EntryStep)
        ensures
            r.wf(),
            forall|a: Answers| #[trigger] r.leads_to(a) == account_entry(*claims, write, a),
            r.asks_about(None),
            r is Resolve || r is Refused,
    {
        match require_auth(claims) {
            Ok(identity) => EntryStep::Resolve {
                did: identity.did.clone(),
                credential: None,
                write,
            },
            Err(error) => EntryStep::Refused { error },
        }
    }

    /// Takes whom a credential speaks for, or why it does not hold.
    pub fn verified(self, answer: Result<String, AppError>) -> (r: EntryStep)
        requires
            self.wf(),
            self.asks_whom(),
        ensures
            r.wf(),
            r.distance() < self.distance(),
            forall|presented: Option<Seq<char>>|
                self.asks_about(presented) ==> #[trigger] r.asks_about(presented),
            forall|a: Answers|
                (if self is Authenticate {
                    a.caller == (match answer {
                        Ok(subject) => Ok::<Seq<char>, ErrorView>(subject@),
                        Err(e) => Err(e@),
                    })
                } else {
                    a.credential == vouched(answer)
                }) ==> #[trigger] r.leads_to(a) == self.leads_to(a),
    {
        match self {
            EntryStep::Authenticate { auth, credential, write } => EntryStep::after_auth(
                auth.verified(answer),
                credential,
                write,
            ),
            EntryStep::Admit { membership, did, space } => EntryStep::after_membership(
                membership.verified(answer),
                did,
                space,
            ),
            other => other,
        }
    }

    /// Takes whether a credential has been revoked.
    pub fn revocation(self, revoked: bool) -> (r: EntryStep)
        requires
            self.wf(),
            self.asks_revoked(),
        ensures
            r.wf(),
            r.distance() < self.distance(),
            forall|presented: Option<Seq<char>>|
                self.asks_about(presented) ==> #[trigger] r.asks_about(presented),
            forall|a: Answers|
                (if self is Authenticate {
                    a.caller_revoked == revoked
                } else {
                    a.credential_revoked == revoked
                }) ==> #[trigger] r.leads_to(a) == self.leads_to(a),
    {
        match self {
            EntryStep::Authenticate { auth, credential, write } => EntryStep::after_auth(
                auth.revocation(revoked),
                credential,
                write,
            ),
            EntryStep::Admit { membership, did, space } => EntryStep::after_membership(
                membership.revocation(revoked),
                did,
                space,
            ),
            other => other,
        }
    }

    /// Takes the space that the request names, if there is one.
    pub fn space(self, found: Option<Space>) -> (r: EntryStep)
        requires
            self is Resolve,
        ensures
            r.wf(),
            r.distance() < self.distance(),
            forall|presented: Option<Seq<char>>|
                self.asks_about(presented) ==> #[trigger] r.asks_about(presented),
            forall|a: Answers| a.space == found ==> #[trigger] r.leads_to(a) == self.leads_to(a),
    {
        match self {
            EntryStep::Resolve { did, credential, write } => match resolve_space(found) {
                Ok(space) => {
                    let membership = MembershipStep::require_membership(&space, write, &credential);
                    EntryStep::Admit { membership, did, space }
                },
                Err(error) => EntryStep::Refused { error },
            },
            other => other,
        }
    }

    /// Takes the caller's membership, if there is one.
    pub fn member(self, found: Option<SpaceAccess>) -> (r: EntryStep)
        requires
            self matches EntryStep::Admit { membership, .. } && membership is LookUpMember,
        ensures
            r.wf(),
            r.distance() == 0,
            forall|a: Answers| a.member == found ==> #[trigger] r.leads_to(a) == self.leads_to(a),
    {
        match self {
            EntryStep::Admit { membership, did, space } => EntryStep::after_membership(
                membership.member(found),
                did,
                space,
            ),
            other => other,
        }
    }
}

/// A request that nobody stands behind is refused, whatever is stored.
pub proof fn law_unknown_callers_are_refused(claims: XrpcClaims, write: bool, a: Answers)
    requires
        claims.identity is None,
        claims.space_credential is None,
    ensures
        entry(claims, write, a) == Err::<Entered, ErrorView>(
            ErrorView::Auth("This endpoint requires authentication"@),
        ),
{
}

/// Whoever gets in to write is a member of the space with write access, under the identifier of the
/// account that stands behind the request, where one does.
pub proof fn law_writers_are_writing_members(claims: XrpcClaims, a: Answers)
    ensures
        entry(claims, true, a) matches Ok(entered) ==> {
            &&& a.member == Some(SpaceAccess::Write)
            &&& a.space == Some(entered.1)
            &&& entered.2 == SpaceAccess::Write
            &&& claims.identity matches Some(identity) ==> entered.0 == identity.did@
        },
{
}

/// Where only the account counts, a space credential changes nothing: without an account the request is
/// refused, and whoever gets in is a member.
pub proof fn law_only_the_account_counts(
    claims: XrpcClaims,
    other: XrpcClaims,
    write: bool,
    a: Answers,
)
    requires
        claims.identity == other.identity,
    ensures
        account_entry(claims, write, a) == account_entry(other, write, a),
        claims.identity is None ==> account_entry(claims, write, a) == Err::<Entered, ErrorView>(
            unauthenticated(),
        ),
        account_entry(claims, write, a) matches Ok(entered) ==> a.member == Some(entered.2),
{
}

/// The way to act on a space itself, which only those in charge of it may.
#[derive(Debug)]
pub enum AuthorityStep {
    /// The caller is known: look the space up.
    Resolve { did: String },
    /// The space is found: see whether the caller is in charge.
    Authorise { admin: AdminStep, did: String, space: Space },
    /// The caller is in charge.
    Open { did: String, space: Space },
    /// The request is refused.
    Refused { error: AppError },
}

/// How a request to act on a space ends, given its caller, the space, and the caller's mark among the
/// users.
pub open spec fn authorised(
    caller: Result<Seq<char>, ErrorView>,
    found: Option<Space>,
    is_super: Option<i32>,
) -> Result<(Seq<char>, Space), ErrorView> {
    match caller {
        Err(e) => Err(e),
        Ok(did) => match found_space(found) {
            Err(e) => Err(e),
            Ok(space) => if is_admin(space, did, is_super) {
                Ok((did, space))
            } else {
                Err(ErrorView::Forbidden("Only the space authority can perform this action"@))
            },
        },
    }
}

/// The account behind a request.
pub open spec fn account(claims: XrpcClaims) -> Result<Seq<char>, ErrorView> {
    match claims.identity {
        Some(identity) => Ok(identity.did@),
        None => Err(unauthenticated()),
    }
}

impl AuthorityStep {
    /// What this step comes to, given the answers that are still to come.
    pub open spec fn leads_to(self, found: Option<Space>, is_super: Option<i32>) -> Result<
        (Seq<char>, Space),
        ErrorView,
    > {
        match self {
            AuthorityStep::Resolve { did } => authorised(Ok(did@), found, is_super),
            AuthorityStep::Authorise { admin, did, space } => match admin.leads_to(is_super) {
                Err(e) => Err(e),
                Ok(_) => Ok((did@, space)),
            },
            AuthorityStep::Open { did, space } => Ok((did@, space)),
            AuthorityStep::Refused { error } => Err(error@),
        }
    }

    fn begin(caller: Result<String, AppError>) -> (r: AuthorityStep)
        ensures
            match caller {
                Ok(d) => r == (AuthorityStep::Resolve { did: d }),
                Err(e) => r == (AuthorityStep::Refused { error: e }),
            },
    {
        match caller {
            Ok(did) => AuthorityStep::Resolve { did },
            Err(error) => AuthorityStep::Refused { error },
        }
    }

    /// The first step for an account.
    pub fn for_account(claims: &XrpcClaims) -> (r: AuthorityStep)
        ensures
            forall|found: Option<Space>, is_super: Option<i32>| #[trigger]
                r.leads_to(found, is_super) == authorised(account(*claims), found, is_super),
            r is Resolve || r is Refused,
    {
        match require_auth(claims) {
            Ok(identity) => AuthorityStep::begin(Ok(identity.did.clone())),
            Err(e) => AuthorityStep::begin(Err(e)),
        }
    }

    /// The first step for an account or another server.
    pub fn for_server(claims: &XrpcClaims) -> (r: AuthorityStep)
        ensures
            forall|found: Option<Space>, is_super: Option<i32>| #[trigger]
                r.leads_to(found, is_super) == authorised(notify_caller(*claims), found, is_super),
            r is Resolve || r is Refused,
    {
        AuthorityStep::begin(require_notify_caller(claims))
    }

    /// Takes the space that the request names, if there is one.
    pub fn space(self, found: Option<Space>) -> (r: AuthorityStep)
        requires
            self is Resolve,
        ensures
            forall|is_super: Option<i32>| #[trigger]
                r.leads_to(found, is_super) == self.leads_to(found, is_super),
            r matches AuthorityStep::Authorise { admin, did, .. } ==> admin matches AdminStep::LookUpUser {
                query,
            } && query@ == is_super_query(did@),
            !(r is Resolve),
    {
        match self {
            AuthorityStep::Resolve { did } => match resolve_space(found) {
                Err(error) => AuthorityStep::Refused { error },
                Ok(space) => match AdminStep::require_space_admin(&space, did.as_str()) {
                    AdminStep::Granted => AuthorityStep::Open { did, space },
                    admin => AuthorityStep::Authorise { admin, did, space },
                },
            },
            other => other,
        }
    }

    /// Takes the caller's mark among the users, if the caller is one.
    pub fn user(self, is_super: Option<i32>) -> (r: AuthorityStep)
        requires
            self matches AuthorityStep::Authorise { admin, .. } && admin is LookUpUser,
        ensures
            r is Open || r is Refused,
            forall|found: Option<Space>| #[trigger]
                r.leads_to(found, is_super) == self.leads_to(found, is_super),
    {
        match self {
            AuthorityStep::Authorise { admin, did, space } => match admin.user(is_super) {
                AdminStep::Refused { error } => AuthorityStep::Refused { error },
                _ => AuthorityStep::Open { did, space },
            },
            other => other,
        }
    }
}

/// Nobody acts on a space who is neither its authority nor a super admin, and a space credential
/// alone names no caller here.
pub proof fn law_only_those_in_charge_act(
    claims: XrpcClaims,
    found: Option<Space>,
    is_super: Option<i32>,
)
    ensures
        authorised(notify_caller(claims), found, is_super) matches Ok(open) ==> {
            &&& found == Some(open.1)
            &&& open.1.authority_did@ == open.0 || (is_super matches Some(flag) && flag != 0)
        },
        claims.identity is None && claims.service_auth is None ==> authorised(
            notify_caller(claims),
            found,
            is_super,
        ) is Err,
        claims.identity is None ==> authorised(account(claims), found, is_super) is Err,
{
}

/// A member gets into a space that is there: to read with the access of the membership, and with
/// write access to write, under the identifier of the account. A credential beside the account changes
/// nothing about that, unless it holds for this very space; where only the account counts, no
/// credential does.
pub proof fn law_members_enter_under_their_own_name(
    claims: XrpcClaims,
    write: bool,
    space: Space,
    access: SpaceAccess,
    a: Answers,
)
    requires
        claims.identity is Some,
        a.space == Some(space),
        a.member == Some(access),
        !write || access == SpaceAccess::Write,
    ensures
        account_entry(claims, write, a) == Ok::<Entered, ErrorView>(
            (claims.identity->0.did@, space, access),
        ),
        claims.space_credential is None || a.credential != Some(space.uri_text())
            || a.credential_revoked ==> entry(claims, write, a) == Ok::<Entered, ErrorView>(
            (claims.identity->0.did@, space, access),
        ),
{
}

/// Whoever holds a credential for a space, and no account, gets in to read under the subject of the
/// credential, without being a member; and does not get in to write.
pub proof fn law_credential_holders_enter_to_read(
    claims: XrpcClaims,
    space: Space,
    subject: Seq<char>,
    a: Answers,
)
    requires
        claims.identity is None,
        claims.space_credential is Some,
        a.caller == Ok::<Seq<char>, ErrorView>(subject),
        !a.caller_revoked,
        a.space == Some(space),
        a.credential == Some(space.uri_text()),
        !a.credential_revoked,
    ensures
        entry(claims, false, a) == Ok::<Entered, ErrorView>((subject, space, SpaceAccess::Read)),
        entry(claims, true, a) == Err::<Entered, ErrorView>(
            ErrorView::Forbidden("Write access is required for this action"@),
        ),
{
}

/// A caller who is known, and names a space that is not there, is told that, whatever the caller may
/// otherwise do.
pub proof fn law_missing_space_is_not_found(
    claims: XrpcClaims,
    write: bool,
    did: Seq<char>,
    is_super: Option<i32>,
    a: Answers,
)
    requires
        claims.identity is Some,
        a.space is None,
    ensures
        entry(claims, write, a) == Err::<Entered, ErrorView>(
            ErrorView::NotFound("Space not found"@),
        ),
        account_entry(claims, write, a) == Err::<Entered, ErrorView>(
            ErrorView::NotFound("Space not found"@),
        ),
        authorised(Ok(did), None, is_super) == Err::<(Seq<char>, Space), ErrorView>(
            ErrorView::NotFound("Space not found"@),
        ),
{
}

/// Who is no member, and has no credential that counts, is told so, to read as to write.
pub proof fn law_strangers_stay_out(claims: XrpcClaims, write: bool, space: Space, a: Answers)
    requires
        claims.identity is Some,
        a.space == Some(space),
        a.member is None,
    ensures
        account_entry(claims, write, a) == Err::<Entered, ErrorView>(
            ErrorView::Forbidden("You are not a member of this space"@),
        ),
        claims.space_credential is None || a.credential != Some(space.uri_text())
            || a.credential_revoked ==> entry(claims, write, a) == Err::<Entered, ErrorView>(
            ErrorView::Forbidden("You are not a member of this space"@),
        ),
{
}

/// The authority of a space acts on it, and so does every super admin, each under its own
/// identifier. Any other caller is told that only the authority may, and a caller who is not known is
/// refused for that.
pub proof fn law_those_in_charge_do_act(
    claims: XrpcClaims,
    space: Space,
    is_super: Option<i32>,
    did: Seq<char>,
    flag: i32,
    fault: ErrorView,
    found: Option<Space>,
)
    ensures
        authorised(Ok(space.authority_did@), Some(space), is_super) == Ok::<
            (Seq<char>, Space),
            ErrorView,
        >((space.authority_did@, space)),
        flag != 0 ==> authorised(Ok(did), Some(space), Some(flag)) == Ok::<
            (Seq<char>, Space),
            ErrorView,
        >((did, space)),
        did != space.authority_did@ ==> authorised(Ok(did), Some(space), None) == Err::<
            (Seq<char>, Space),
            ErrorView,
        >(ErrorView::Forbidden("Only the space authority can perform this action"@)),
        did != space.authority_did@ ==> authorised(Ok(did), Some(space), Some(0)) == Err::<
            (Seq<char>, Space),
            ErrorView,
        >(ErrorView::Forbidden("Only the space authority can perform this action"@)),
        authorised(Err(fault), found, is_super) == Err::<(Seq<char>, Space), ErrorView>(fault),
        claims.identity matches Some(identity) ==> account(claims) == Ok::<Seq<char>, ErrorView>(
            identity.did@,
        ),
        claims.identity is None ==> account(claims) == Err::<Seq<char>, ErrorView>(
            ErrorView::Auth("This endpoint requires authentication"@),
        ),
{
}

/// What a way into a space asks about a credential is asked about the one that came with the request:
/// whom it speaks for by the credential itself, and whether it was revoked by its digest.
pub proof fn law_questions_are_about_the_credential(
    auth: AuthStep,
    membership: MembershipStep,
    credential: Option<String>,
    write: bool,
    did: String,
    space: Space,
    presented: Seq<char>,
)
    ensures
        (EntryStep::Authenticate { auth, credential, write }).asks_about(Some(presented)) ==> {
            &&& option_text(credential) == Some(presented)
            &&& auth matches AuthStep::Verify { token } ==> token@ == presented
            &&& auth matches AuthStep::CheckRevoked { token_hash, .. } ==> token_hash@
                == token_digest(presented)
        },
        (EntryStep::Resolve { did, credential, write }).asks_about(Some(presented)) ==> option_text(
            credential,
        ) == Some(presented),
        (EntryStep::Admit { membership, did, space }).asks_about(Some(presented)) ==> {
            &&& membership matches MembershipStep::VerifyCredential { token, .. } ==> token@
                == presented
            &&& membership matches MembershipStep::CheckRevoked { token_hash, .. } ==> token_hash@
                == token_digest(presented)
        },
        (EntryStep::Resolve { did, credential, write }).asks_about(None) ==> credential is None,
{
}

} // verus!
