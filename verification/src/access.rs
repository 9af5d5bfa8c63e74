//! Who is calling, and what the caller may do in a space.
//!
//! Where an answer has to be fetched, the decision is a sequence of steps: a step says what to ask,
//! and the answer leads to the next step.

use vstd::prelude::*;
use crate::error::{AppError, ErrorView};
use crate::ids::{token_digest, token_hash};
use crate::statement::{ParamView, Statement, StatementView};
use crate::text::same_text;
use crate::types::{Space, SpaceAccess};

verus! {

/// An account that has been authenticated.
#[derive(Debug)]
pub struct Claims {
    pub did: String,
    /// The key of the API client that acts for the account.
    pub client_key: Option<String>,
}

/// Another server, by the token that it signed.
#[derive(Debug)]
pub struct ServiceAuth {
    pub did: String,
}

/// What came with a request to say who makes it.
#[derive(Debug)]
pub struct XrpcClaims {
    pub identity: Option<Claims>,
    /// A space credential that has not been verified yet.
    pub space_credential: Option<String>,
    pub service_auth: Option<ServiceAuth>,
}

/// The refusal of a request that nobody stands behind.
pub open spec fn unauthenticated() -> ErrorView {
    ErrorView::Auth("This endpoint requires authentication"@)
}

/// The account behind a request.
pub fn require_auth(claims: &XrpcClaims) -> (r: Result<&Claims, AppError>)
    ensures
        match r {
            Ok(identity) => claims.identity == Some(*identity),
            Err(e) => claims.identity is None && e@ == unauthenticated(),
        },
{
    match &claims.identity {
        Some(identity) => Ok(identity),
        None => Err(AppError::auth("This endpoint requires authentication")),
    }
}

/// The caller of a route between servers: an account, or else a server that signed a token. A space
/// credential does not count, since it speaks for a space.
pub open spec fn notify_caller(claims: XrpcClaims) -> Result<Seq<char>, ErrorView> {
    match claims.identity {
        Some(identity) => Ok(identity.did@),
        None => match claims.service_auth {
            Some(service) => Ok(service.did@),
            None => Err(unauthenticated()),
        },
    }
}

/// Names the caller of a route between servers.
pub fn require_notify_caller(claims: &XrpcClaims) -> (r: Result<String, AppError>)
    ensures
        match r {
            Ok(did) => notify_caller(*claims) == Ok::<Seq<char>, ErrorView>(did@),
            Err(e) => notify_caller(*claims) == Err::<Seq<char>, ErrorView>(e@),
        },
{
    if let Some(identity) = &claims.identity {
        return Ok(identity.did.clone());
    }
    if let Some(service) = &claims.service_auth {
        return Ok(service.did.clone());
    }
    Err(AppError::auth("This endpoint requires authentication"))
}

/// Naming the caller of an endpoint that takes a space credential in place of an account.
#[derive(Debug)]
pub enum AuthStep {
    /// Verify this credential: its signature and its lifetime.
    Verify { token: String },
    /// Ask whether the credential with this digest has been revoked.
    CheckRevoked { token_hash: String, subject: String },
    /// The caller is known.
    Known { did: String },
    /// The request is refused.
    Refused { error: AppError },
}

/// The caller of an endpoint that takes a space credential in place of an account, given how the
/// verification of the credential went and whether it has been revoked.
pub open spec fn caller(
    claims: XrpcClaims,
    verified: Result<Seq<char>, ErrorView>,
    revoked: bool,
) -> Result<Seq<char>, ErrorView> {
    match claims.identity {
        Some(identity) => Ok(identity.did@),
        None => if claims.space_credential is None {
            Err(unauthenticated())
        } else if verified is Err {
            verified
        } else if revoked {
            Err(ErrorView::Auth("space credential has been revoked"@))
        } else {
            verified
        },
    }
}

impl AuthStep {
    /// What this step comes to, given the answers that are still to come.
    pub open spec fn leads_to(
        self,
        verified: Result<Seq<char>, ErrorView>,
        revoked: bool,
    ) -> Result<Seq<char>, ErrorView> {
        match self {
            AuthStep::Verify { .. } => match verified {
                Err(e) => Err(e),
                Ok(subject) => if revoked {
                    Err(ErrorView::Auth("space credential has been revoked"@))
                } else {
                    Ok(subject)
                },
            },
            AuthStep::CheckRevoked { subject, .. } => if revoked {
                Err(ErrorView::Auth("space credential has been revoked"@))
            } else {
                Ok(subject@)
            },
            AuthStep::Known { did } => Ok(did@),
            AuthStep::Refused { error } => Err(error@),
        }
    }

    /// The step for a request. Only a credential is worth a question.
    pub fn require_auth_or_credential(claims: &XrpcClaims) -> (r: AuthStep)
        ensures
            forall|verified: Result<Seq<char>, ErrorView>, revoked: bool| #[trigger]
                r.leads_to(verified, revoked) == caller(*claims, verified, revoked),
            r is Verify <==> claims.identity is None && claims.space_credential is Some,
            r matches AuthStep::Verify { token } ==> token@ == claims.space_credential->0@,
            r is Refused <==> claims.identity is None && claims.space_credential is None,
            !(r is CheckRevoked),
    {
        if let Some(identity) = &claims.identity {
            return AuthStep::Known { did: identity.did.clone() };
        }
        if let Some(token) = &claims.space_credential {
            return AuthStep::Verify { token: token.clone() };
        }
        AuthStep::Refused { error: AppError::auth("This endpoint requires authentication") }
    }

    /// Takes the subject of the credential, or why it does not hold.
    pub fn verified(self, answer: Result<String, AppError>) -> (r: AuthStep)
        requires
            self is Verify,
        ensures
            match answer {
                Ok(subject) => r matches AuthStep::CheckRevoked { token_hash: h, subject: s } && h@
                    == token_digest(self->token@) && s@ == subject@,
                Err(e) => r matches AuthStep::Refused { error } && error@ == e@,
            },
            forall|verified: Result<Seq<char>, ErrorView>, revoked: bool|
                verified == (match answer {
                    Ok(subject) => Ok::<Seq<char>, ErrorView>(subject@),
                    Err(e) => Err(e@),
                }) ==> #[trigger] r.leads_to(verified, revoked) == self.leads_to(verified, revoked),
    {
        match self {
            AuthStep::Verify { token } => match answer {
                Ok(subject) => AuthStep::CheckRevoked {
                    token_hash: token_hash(token.as_str()),
                    subject,
                },
                Err(error) => AuthStep::Refused { error },
            },
            other => other,
        }
    }

    /// Takes whether the credential has been revoked.
    pub fn revocation(self, revoked: bool) -> (r: AuthStep)
        requires
            self is CheckRevoked,
        ensures
            if revoked {
                r matches AuthStep::Refused { error } && error@ == ErrorView::Auth(
                    "space credential has been revoked"@,
                )
            } else {
                r matches AuthStep::Known { did } && did@ == self->subject@
            },
            forall|verified: Result<Seq<char>, ErrorView>| #[trigger]
                r.leads_to(verified, revoked) == self.leads_to(verified, revoked),
    {
        match self {
            AuthStep::CheckRevoked { subject, .. } => if revoked {
                AuthStep::Refused { error: AppError::auth("space credential has been revoked") }
            } else {
                AuthStep::Known { did: subject }
            },
            other => other,
        }
    }
}

/// Admitting the caller to a space.
#[derive(Debug)]
pub enum MembershipStep {
    /// Verify this credential: its signature and its lifetime.
    VerifyCredential { token: String, space_uri: String, write: bool },
    /// Ask whether the credential with this digest has been revoked.
    CheckRevoked { token_hash: String, write: bool },
    /// Look the caller up among the members.
    LookUpMember { write: bool },
    /// The caller may go on, with this access.
    Admitted { access: SpaceAccess },
    /// The request is refused.
    Refused { error: AppError },
}

/// The refusal of a request to write by someone who may only read.
pub open spec fn write_required() -> ErrorView {
    ErrorView::Forbidden("Write access is required for this action"@)
}

/// What membership alone allows.
pub open spec fn admission_by_membership(
    write: bool,
    member: Option<SpaceAccess>,
) -> Result<SpaceAccess, ErrorView> {
    match member {
        None => Err(ErrorView::Forbidden("You are not a member of this space"@)),
        Some(access) => if write && !access.writes() {
            Err(write_required())
        } else {
            Ok(access)
        },
    }
}

/// What the caller of a request may do in a space, given the subject of the credential that came
/// with it, where it holds, whether it has been revoked, and the caller's membership. A credential
/// for this very space reads; any other counts for nothing.
pub open spec fn admission(
    space_uri: Seq<char>,
    write: bool,
    has_credential: bool,
    verified: Option<Seq<char>>,
    revoked: bool,
    member: Option<SpaceAccess>,
) -> Result<SpaceAccess, ErrorView> {
    if has_credential && verified == Some(space_uri) && !revoked {
        if write {
            Err(write_required())
        } else {
            Ok(SpaceAccess::Read)
        }
    } else {
        admission_by_membership(write, member)
    }
}

/// Whom a verification vouches for, if it succeeded.
pub open spec fn vouched(answer: Result<String, AppError>) -> Option<Seq<char>> {
    match answer {
        Ok(subject) => Some(subject@),
        Err(_) => None,
    }
}

impl MembershipStep {
    /// What this step comes to, given the answers that are still to come.
    pub open spec fn leads_to(
        self,
        verified: Option<Seq<char>>,
        revoked: bool,
        member: Option<SpaceAccess>,
    ) -> Result<SpaceAccess, ErrorView> {
        match self {
            MembershipStep::VerifyCredential { space_uri, write, .. } => admission(
                space_uri@,
                write,
                true,
                verified,
                revoked,
                member,
            ),
            MembershipStep::CheckRevoked { write, .. } => if revoked {
                admission_by_membership(write, member)
            } else if write {
                Err(write_required())
            } else {
                Ok(SpaceAccess::Read)
            },
            MembershipStep::LookUpMember { write } => admission_by_membership(write, member),
            MembershipStep::Admitted { access } => Ok(access),
            MembershipStep::Refused { error } => Err(error@),
        }
    }

    /// The first step for a request to a space. A credential is looked at before membership.
    pub fn require_membership(
        space: &Space,
        require_write: bool,
        space_credential: &Option<String>,
    ) -> (r: MembershipStep)
        ensures
            match *space_credential {
                Some(t) => r matches MembershipStep::VerifyCredential { token, space_uri, write }
                    && token@ == t@ && space_uri@ == space.uri_text() && write == require_write,
                None => r == (MembershipStep::LookUpMember { write: require_write }),
            },
            forall|verified: Option<Seq<char>>, revoked: bool, member: Option<SpaceAccess>|
                #[trigger] r.leads_to(verified, revoked, member) == admission(
                    space.uri_text(),
                    require_write,
                    *space_credential is Some,
                    verified,
                    revoked,
                    member,
                ),
    {
        match space_credential {
            Some(token) => MembershipStep::VerifyCredential {
                token: token.clone(),
                space_uri: space.uri(),
                write: require_write,
            },
            None => MembershipStep::LookUpMember { write: require_write },
        }
    }

    /// Takes the subject of the credential, or why it does not hold.
    pub fn verified(self, answer: Result<String, AppError>) -> (r: MembershipStep)
        requires
            self is VerifyCredential,
        ensures
            if vouched(answer) == Some(self->space_uri@) {
                r matches MembershipStep::CheckRevoked { token_hash: h, write } && h@
                    == token_digest(self->token@) && write == self->VerifyCredential_write
            } else {
                r == (MembershipStep::LookUpMember { write: self->VerifyCredential_write })
            },
            forall|revoked: bool, member: Option<SpaceAccess>| #[trigger]
                r.leads_to(vouched(answer), revoked, member) == self.leads_to(
                    vouched(answer),
                    revoked,
                    member,
                ),
    {
        match self {
            MembershipStep::VerifyCredential { token, space_uri, write } => {
                if let Ok(subject) = answer {
                    if same_text(subject.as_str(), space_uri.as_str()) {
                        return MembershipStep::CheckRevoked {
                            token_hash: token_hash(token.as_str()),
                            write,
                        };
                    }
                }
                MembershipStep::LookUpMember { write }
            },
            other => other,
        }
    }

    /// Takes whether the credential has been revoked.
    pub fn revocation(self, revoked: bool) -> (r: MembershipStep)
        requires
            self is CheckRevoked,
        ensures
            if revoked {
                r == (MembershipStep::LookUpMember { write: self->CheckRevoked_write })
            } else if self->CheckRevoked_write {
                r matches MembershipStep::Refused { error } && error@ == write_required()
            } else {
                r == (MembershipStep::Admitted { access: SpaceAccess::Read })
            },
            forall|verified: Option<Seq<char>>, member: Option<SpaceAccess>| #[trigger]
                r.leads_to(verified, revoked, member) == self.leads_to(verified, revoked, member),
    {
        match self {
            MembershipStep::CheckRevoked { write, .. } => if revoked {
                MembershipStep::LookUpMember { write }
            } else if write {
                MembershipStep::Refused {
                    error: AppError::forbidden("Write access is required for this action"),
                }
            } else {
                MembershipStep::Admitted { access: SpaceAccess::Read }
            },
            other => other,
        }
    }

    /// Takes the access of the caller's membership, if there is one.
    pub fn member(self, found: Option<SpaceAccess>) -> (r: MembershipStep)
        requires
            self is LookUpMember,
        ensures
            match admission_by_membership(self->LookUpMember_write, found) {
                Ok(a) => r == (MembershipStep::Admitted { access: a }),
                Err(e) => r matches MembershipStep::Refused { error } && error@ == e,
            },
            forall|verified: Option<Seq<char>>, revoked: bool| #[trigger]
                r.leads_to(verified, revoked, found) == self.leads_to(verified, revoked, found),
    {
        match self {
            MembershipStep::LookUpMember { write } => match found {
                None => MembershipStep::Refused {
                    error: AppError::forbidden("You are not a member of this space"),
                },
                Some(access) => if write && !access.can_write() {
                    MembershipStep::Refused {
                        error: AppError::forbidden("Write access is required for this action"),
                    }
                } else {
                    MembershipStep::Admitted { access }
                },
            },
            other => other,
        }
    }
}

/// Nobody writes without being a member with write access: no credential allows it.
pub proof fn law_only_writing_members_write(
    space_uri: Seq<char>,
    has_credential: bool,
    verified: Option<Seq<char>>,
    revoked: bool,
    member: Option<SpaceAccess>,
)
    ensures
        admission(space_uri, true, has_credential, verified, revoked, member) is Ok ==> member
            == Some(SpaceAccess::Write) && admission(
            space_uri,
            true,
            has_credential,
            verified,
            revoked,
            member,
        ) == Ok::<SpaceAccess, ErrorView>(SpaceAccess::Write),
{
}

/// A credential that was revoked, does not hold, or is for another space allows nothing that
/// membership does not.
pub proof fn law_void_credential_counts_for_nothing(
    space_uri: Seq<char>,
    write: bool,
    verified: Option<Seq<char>>,
    revoked: bool,
    member: Option<SpaceAccess>,
)
    requires
        revoked || verified != Some(space_uri),
    ensures
        admission(space_uri, write, true, verified, revoked, member) == admission_by_membership(
            write,
            member,
        ),
{
}

/// Whether the caller is in charge of a space.
#[derive(Debug)]
pub enum AdminStep {
    /// Read whether the caller is a super admin of this instance.
    LookUpUser { query: Statement },
    /// The caller is in charge.
    Granted,
    /// The request is refused.
    Refused { error: AppError },
}

/// The query for an account's mark of being a super admin.
pub open spec fn is_super_query(did: Seq<char>) -> StatementView {
    StatementView {
        sql: "SELECT is_super FROM happyview_users WHERE did = ?"@,
        params: seq![ParamView::Text(did)],
    }
}

/// Being in charge of a space: its authority is, and so is every super admin.
pub open spec fn is_admin(space: Space, did: Seq<char>, is_super: Option<i32>) -> bool {
    space.authority_did@ == did || (is_super matches Some(flag) && flag != 0)
}

impl AdminStep {
    /// What this step comes to, given the caller's row among the users.
    pub open spec fn leads_to(self, is_super: Option<i32>) -> Result<(), ErrorView> {
        match self {
            AdminStep::LookUpUser { .. } => if is_super matches Some(flag) && flag != 0 {
                Ok(())
            } else {
                Err(ErrorView::Forbidden("Only the space authority can perform this action"@))
            },
            AdminStep::Granted => Ok(()),
            AdminStep::Refused { error } => Err(error@),
        }
    }

    /// The first step for a caller.
    pub fn require_space_admin(space: &Space, did: &str) -> (r: AdminStep)
        ensures
            if space.authority_did@ == did@ {
                r is Granted
            } else {
                r matches AdminStep::LookUpUser { query } && query@ == is_super_query(did@)
            },
            forall|is_super: Option<i32>| #[trigger]
                r.leads_to(is_super) == if is_admin(*space, did@, is_super) {
                    Ok::<(), ErrorView>(())
                } else {
                    Err(ErrorView::Forbidden("Only the space authority can perform this action"@))
                },
    {
        if same_text(space.authority_did.as_str(), did) {
            AdminStep::Granted
        } else {
            AdminStep::LookUpUser {
                query: Statement::new("SELECT is_super FROM happyview_users WHERE did = ?").text(
                    did,
                ),
            }
        }
    }

    /// Takes the caller's mark among the users, if the caller is one.
    pub fn user(self, is_super: Option<i32>) -> (r: AdminStep)
        requires
            self is LookUpUser,
        ensures
            if is_super matches Some(flag) && flag != 0 {
                r is Granted
            } else {
                r matches AdminStep::Refused { error } && error@ == ErrorView::Forbidden(
                    "Only the space authority can perform this action"@,
                )
            },
            r.leads_to(is_super) == self.leads_to(is_super),
    {
        if let Some(flag) = is_super {
            if flag != 0 {
                return AdminStep::Granted;
            }
        }
        AdminStep::Refused {
            error: AppError::forbidden("Only the space authority can perform this action"),
        }
    }
}

/// Where no credential counts for a request, a member gets in to read with the access of the
/// membership, whatever it is, and one with write access gets in to write. Any other member is told
/// what is missing, and who is no member is told so.
pub proof fn law_members_get_in_as_members(
    space_uri: Seq<char>,
    has_credential: bool,
    verified: Option<Seq<char>>,
    revoked: bool,
    access: SpaceAccess,
    write: bool,
)
    requires
        !has_credential || verified != Some(space_uri) || revoked,
    ensures
        admission(space_uri, false, has_credential, verified, revoked, Some(access)) == Ok::<
            SpaceAccess,
            ErrorView,
        >(access),
        admission(
            space_uri,
            true,
            has_credential,
            verified,
            revoked,
            Some(SpaceAccess::Write),
        ) == Ok::<SpaceAccess, ErrorView>(SpaceAccess::Write),
        access != SpaceAccess::Write ==> admission(
            space_uri,
            true,
            has_credential,
            verified,
            revoked,
            Some(access),
        ) == Err::<SpaceAccess, ErrorView>(
            ErrorView::Forbidden("Write access is required for this action"@),
        ),
        admission(space_uri, write, has_credential, verified, revoked, None) == Err::<
            SpaceAccess,
            ErrorView,
        >(ErrorView::Forbidden("You are not a member of this space"@)),
{
}

/// A credential that holds, is for this very space and has not been revoked lets its holder in to
/// read, member or not, and to nothing else: with it, even a member with write access is told that it
/// does not write.
pub proof fn law_credential_reads_and_no_more(space_uri: Seq<char>, member: Option<SpaceAccess>)
    ensures
        admission(space_uri, false, true, Some(space_uri), false, member) == Ok::<
            SpaceAccess,
            ErrorView,
        >(SpaceAccess::Read),
        admission(space_uri, true, true, Some(space_uri), false, member) == Err::<
            SpaceAccess,
            ErrorView,
        >(ErrorView::Forbidden("Write access is required for this action"@)),
{
}

/// A verification vouches for its subject where it succeeded, and for nobody where it failed.
pub proof fn law_only_success_vouches(subject: String, error: AppError)
    ensures
        vouched(Ok::<String, AppError>(subject)) == Some(subject@),
        vouched(Err::<String, AppError>(error)) is None,
{
}

/// An account names itself, whatever credential comes with it. Without an account, the subject of a
/// credential is the caller while the credential holds and has not been revoked; one that does not
/// hold is refused for its own fault, and a request with neither for the lack of both.
pub proof fn law_callers_are_who_vouches_for_them(
    claims: XrpcClaims,
    verified: Result<Seq<char>, ErrorView>,
    revoked: bool,
    subject: Seq<char>,
    fault: ErrorView,
)
    ensures
        claims.identity matches Some(identity) ==> caller(claims, verified, revoked) == Ok::<
            Seq<char>,
            ErrorView,
        >(identity.did@),
        claims.identity is None && claims.space_credential is Some ==> {
            &&& caller(claims, Ok(subject), false) == Ok::<Seq<char>, ErrorView>(subject)
            &&& caller(claims, Ok(subject), true) == Err::<Seq<char>, ErrorView>(
                ErrorView::Auth("space credential has been revoked"@),
            )
            &&& caller(claims, Err(fault), revoked) == Err::<Seq<char>, ErrorView>(fault)
        },
        claims.identity is None && claims.space_credential is None ==> caller(
            claims,
            verified,
            revoked,
        ) == Err::<Seq<char>, ErrorView>(
            ErrorView::Auth("This endpoint requires authentication"@),
        ),
{
}

/// Between servers, an account names itself, and else the server that signed a token does. A space
/// credential names nobody: it changes nothing about who is calling.
pub proof fn law_servers_are_named_by_their_token(claims: XrpcClaims, other: XrpcClaims)
    ensures
        claims.identity matches Some(identity) ==> notify_caller(claims) == Ok::<
            Seq<char>,
            ErrorView,
        >(identity.did@),
        claims.identity is None ==> (claims.service_auth matches Some(service) ==> notify_caller(
            claims,
        ) == Ok::<Seq<char>, ErrorView>(service.did@)),
        claims.identity is None && claims.service_auth is None ==> notify_caller(claims) == Err::<
            Seq<char>,
            ErrorView,
        >(ErrorView::Auth("This endpoint requires authentication"@)),
        claims.identity == other.identity && claims.service_auth == other.service_auth
            ==> notify_caller(claims) == notify_caller(other),
{
}

/// The authority of a space is in charge of it whatever its mark among the users, and an account
/// that is marked as a super admin is in charge of every space. Without a mark, or with one of zero,
/// nobody but the authority is.
pub proof fn law_authority_and_super_admins_are_in_charge(
    space: Space,
    did: Seq<char>,
    is_super: Option<i32>,
    flag: i32,
)
    ensures
        is_admin(space, space.authority_did@, is_super),
        flag != 0 ==> is_admin(space, did, Some(flag)),
        did != space.authority_did@ ==> !is_admin(space, did, None) && !is_admin(
            space,
            did,
            Some(0),
        ),
{
}

/// The mark that is read among the users is that of the account that is asked about.
pub proof fn law_mark_is_read_of_the_caller(did: Seq<char>)
    ensures
        is_super_query(did).sql == "SELECT is_super FROM happyview_users WHERE did = ?"@,
        is_super_query(did).params == seq![ParamView::Text(did)],
{
}

} // verus!
