//! Delegation tokens, and the space credentials that they are exchanged for.

use vstd::prelude::*;
use crate::access::{
    admission_by_membership, require_auth, unauthenticated, Claims, MembershipStep, XrpcClaims,
};
use crate::clock::{instant_string, instant_text, now};
use crate::entry::{found_space, resolve_space};
use crate::error::{AppError, ErrorView};
use crate::statement::{ParamView, Statement, StatementView};
use crate::text::{option_text, same_text};
use crate::types::{Space, SpaceAccess};

verus! {

/// How many seconds a delegation token holds.
pub const DELEGATION_TOKEN_TTL_SECS: u64 = 60;

/// The number that bytes denote, the most significant first.
pub open spec fn big_endian(bytes: Seq<u8>) -> int
    decreases bytes.len(),
{
    if bytes.len() == 0 {
        0
    } else {
        big_endian(bytes.drop_last()) * 256 + bytes.last()
    }
}

/// The number of points on the curve that signatures are made on.
pub open spec fn curve_order() -> int {
    0xFFFF_FFFF_FFFF_FFFF_FFFF_FFFF_FFFF_FFFE_BAAE_DCE6_AF48_A03B_BFD2_5E8C_D036_4141int
}

/// Whether bytes are a signing key: at most thirty-two of them, at least twenty-four, for a number
/// between zero and the order of the curve.
pub open spec fn is_signing_key(bytes: Seq<u8>) -> bool {
    24 <= bytes.len() <= 32 && 0 < big_endian(bytes) < curve_order()
}

/// `k256::ecdsa::SigningKey::from_slice`, of which only the refusal is kept, by its `Display`. Shorter
/// keys are taken with zeros in front. A refusal says nothing about its reason.
#[verifier::external_body]
fn try_signing_key(bytes: &[u8]) -> (r: Result<(), String>)
    ensures
        r is Ok <==> is_signing_key(bytes@),
        r matches Err(e) ==> e@ == "signature error"@,
{
    k256::ecdsa::SigningKey::from_slice(bytes).map(|_| ()).map_err(|e| e.to_string())
}

/// What the key of this instance is good for: nothing where there is none, or where it is none to
/// sign with.
pub open spec fn key_verdict(key: Option<Seq<u8>>) -> Result<(), ErrorView> {
    match key {
        None => Err(
            ErrorView::Internal("TOKEN_ENCRYPTION_KEY is required for space credentials"@),
        ),
        Some(bytes) => if is_signing_key(bytes) {
            Ok(())
        } else {
            Err(
                ErrorView::Internal(
                    "failed to derive delegation signing key: "@ + "signature error"@,
                ),
            )
        },
    }
}

/// The bytes of a key that may be missing.
pub open spec fn key_bytes(key: Option<Vec<u8>>) -> Option<Seq<u8>> {
    match key {
        Some(bytes) => Some(bytes@),
        None => None,
    }
}

/// Whether this instance can sign, or why it cannot.
pub fn require_signing_key(key: &Option<Vec<u8>>) -> (r: Result<(), AppError>)
    ensures
        match r {
            Ok(_) => key_verdict(key_bytes(*key)) == Ok::<(), ErrorView>(()),
            Err(e) => key_verdict(key_bytes(*key)) == Err::<(), ErrorView>(e@),
        },
{
    match key {
        None => Err(
            AppError::internal("TOKEN_ENCRYPTION_KEY is required for space credentials"),
        ),
        Some(bytes) => match try_signing_key(bytes.as_slice()) {
            Ok(_) => Ok(()),
            Err(e) => {
                let mut m = "failed to derive delegation signing key: ".to_owned();
                m.append(e.as_str());
                Err(AppError::Internal(m))
            },
        },
    }
}

/// What a delegation token says.
#[derive(Debug)]
pub struct DelegationTokenClaims {
    /// The member that it was issued to.
    pub iss: String,
    /// The space that it is for.
    pub sub: String,
    /// The host that may take it.
    pub aud: String,
    pub iat: u64,
    pub exp: u64,
    pub jti: String,
}

/// The host of the spaces of an account.
pub open spec fn space_host_text(did: Seq<char>) -> Seq<char> {
    did + "#atproto_space_host"@
}

/// Names the host of the spaces of an account.
pub fn space_host(did: &str) -> (r: String)
    ensures
        r@ == space_host_text(did@),
{
    let mut s = did.to_owned();
    s.append("#atproto_space_host");
    s
}

/// Whether a token and its written expiry are those of a member for a space, issued at a second.
pub open spec fn is_delegation(
    claims: DelegationTokenClaims,
    expires_at: Seq<char>,
    space: Space,
    did: Seq<char>,
    secs: u64,
    jti: Seq<char>,
) -> bool {
    &&& claims.iss@ == did
    &&& claims.sub@ == space.uri_text()
    &&& claims.aud@ == space_host_text(space.did@)
    &&& claims.iat == secs
    &&& claims.exp == secs + DELEGATION_TOKEN_TTL_SECS
    &&& claims.jti@ == jti
    &&& expires_at == instant_text((claims.exp as i64) as int, 0)
}

/// What the delegation token for a member says that is issued at a second, and when it expires. There is
/// none once the seconds have run out.
pub fn delegation_token_at(space: &Space, did: &str, secs: u64, jti: String) -> (r: Option<
    (DelegationTokenClaims, String),
>)
    ensures
        is_delegation_at(r, *space, did@, secs, jti@),
{
    if secs > u64::MAX - DELEGATION_TOKEN_TTL_SECS {
        return None;
    }
    let exp: u64 = secs + DELEGATION_TOKEN_TTL_SECS;
    let claims = DelegationTokenClaims {
        iss: did.to_owned(),
        sub: space.uri(),
        aud: space_host(space.did.as_str()),
        iat: secs,
        exp,
        jti,
    };
    let expires_at = instant_string(exp as i64, 0);
    Some((claims, expires_at))
}

/// Whether this is what comes of asking for a token at a second: one that holds from then on, or
/// none once the seconds have run out.
pub open spec fn is_delegation_at(
    token: Option<(DelegationTokenClaims, String)>,
    space: Space,
    did: Seq<char>,
    secs: u64,
    jti: Seq<char>,
) -> bool {
    match token {
        Some(t) => secs <= u64::MAX - DELEGATION_TOKEN_TTL_SECS && is_delegation(
            t.0,
            t.1@,
            space,
            did,
            secs,
            jti,
        ),
        None => secs > u64::MAX - DELEGATION_TOKEN_TTL_SECS,
    }
}

/// The second at which a token is issued: that of the clock, or the last one from which a token can hold
/// its full time, where the clock is beyond it.
pub fn issuing_second(secs: u64) -> (r: u64)
    ensures
        r == (if secs <= u64::MAX - DELEGATION_TOKEN_TTL_SECS {
            secs
        } else {
            (u64::MAX - DELEGATION_TOKEN_TTL_SECS) as u64
        }),
{
    if secs <= u64::MAX - DELEGATION_TOKEN_TTL_SECS {
        secs
    } else {
        u64::MAX - DELEGATION_TOKEN_TTL_SECS
    }
}

/// What the delegation token for a member says that is issued now, and when it expires.
pub fn get_delegation_token(space: &Space, did: &str, jti: String) -> (r: (
    DelegationTokenClaims,
    String,
))
    ensures
        exists|secs: u64| #[trigger] is_delegation_at(Some(r), *space, did@, secs, jti@),
{
    let (secs, _) = now();
    delegation_token_at(space, did, issuing_second(secs), jti).unwrap()
}

/// A delegation token holds for its time to live from the moment that it was issued, and is for the
/// host of the space that it names.
pub proof fn law_delegation_is_short_lived(
    claims: DelegationTokenClaims,
    expires_at: Seq<char>,
    space: Space,
    did: Seq<char>,
    secs: u64,
    jti: Seq<char>,
)
    requires
        secs <= u64::MAX - DELEGATION_TOKEN_TTL_SECS,
        is_delegation(claims, expires_at, space, did, secs, jti),
    ensures
        claims.exp - claims.iat == 60,
        claims.aud@ == space_host_text(space.did@),
{
}

/// Exchanging a delegation token for a space credential.
#[derive(Debug)]
pub enum CredentialStep {
    /// Read which space the token says that it is for, without trusting it yet.
    Peek { grant: String, did: String },
    /// Read whose space this URI names.
    ReadSubject { grant: String, did: String, subject: String },
    /// Verify the token, for this host.
    Verify { grant: String, did: String, audience: String },
    /// Look up the space that the token is for.
    Resolve { subject: String, did: String },
    /// Look the caller up among the members.
    LookUpMember { space: Space, did: String, membership: MembershipStep },
    /// Issue a credential for this space to the caller.
    Issue { space: Space, did: String },
    /// The request is refused.
    Refused { error: AppError },
}

/// Every answer that an exchange can meet.
pub ghost struct Answers {
    /// The space that the token says it is for.
    pub peeked: Option<Seq<char>>,
    /// Issuer and subject of the token, or why it does not hold.
    pub verified: Result<(Seq<char>, Seq<char>), ErrorView>,
    /// The space of that name.
    pub space: Option<Space>,
    /// The caller's membership.
    pub member: Option<SpaceAccess>,
}

/// The refusal of a token that was issued to someone else.
pub open spec fn not_the_holder() -> ErrorView {
    ErrorView::Forbidden("delegation token was issued to a different account"@)
}

/// Whom a credential may be issued to, and for which space, once the token has been verified.
pub open spec fn held_by(
    did: Seq<char>,
    verified: Result<(Seq<char>, Seq<char>), ErrorView>,
    a: Answers,
) -> Result<(Seq<char>, Space), ErrorView> {
    match verified {
        Err(e) => Err(e),
        Ok(token) => if did != token.0 {
            Err(not_the_holder())
        } else {
            issued_for(did, a)
        },
    }
}

/// Whom a credential may be issued to, and for which space, once the holder is known: to a member,
/// at this time.
pub open spec fn issued_for(did: Seq<char>, a: Answers) -> Result<(Seq<char>, Space), ErrorView> {
    match found_space(a.space) {
        Err(e) => Err(e),
        Ok(space) => match admission_by_membership(false, a.member) {
            Err(e) => Err(e),
            Ok(_) => Ok((did, space)),
        },
    }
}

/// Whom a credential is issued to, and for which space, or why there is none.
pub open spec fn exchanged(claims: XrpcClaims, key: Option<Seq<u8>>, a: Answers) -> Result<
    (Seq<char>, Space),
    ErrorView,
> {
    match claims.identity {
        None => Err(unauthenticated()),
        Some(identity) => match key_verdict(key) {
            Err(e) => Err(e),
            Ok(_) => match a.peeked {
                None => Err(ErrorView::Auth("invalid delegation token"@)),
                Some(_) => held_by(identity.did@, a.verified, a),
            },
        },
    }
}

impl CredentialStep {
    /// What this step comes to, given the answers that are still to come.
    pub open spec fn leads_to(self, a: Answers) -> Result<(Seq<char>, Space), ErrorView> {
        match self {
            CredentialStep::Peek { did, .. } => match a.peeked {
                None => Err(ErrorView::Auth("invalid delegation token"@)),
                Some(_) => held_by(did@, a.verified, a),
            },
            CredentialStep::ReadSubject { did, .. } => held_by(did@, a.verified, a),
            CredentialStep::Verify { did, .. } => held_by(did@, a.verified, a),
            CredentialStep::Resolve { did, .. } => issued_for(did@, a),
            CredentialStep::LookUpMember { space, did, membership } => match membership.leads_to(
                None,
                false,
                a.member,
            ) {
                Err(e) => Err(e),
                Ok(_) => Ok((did@, space)),
            },
            CredentialStep::Issue { space, did } => Ok((did@, space)),
            CredentialStep::Refused { error } => Err(error@),
        }
    }

    /// The first step for a request that brings a delegation token.
    pub fn get_space_credential(claims: &XrpcClaims, key: &Option<Vec<u8>>, grant: String) -> (r:
        CredentialStep)
        ensures
            forall|a: Answers| #[trigger]
                r.leads_to(a) == exchanged(*claims, key_bytes(*key), a),
            r is Peek || r is Refused,
            r matches CredentialStep::Peek { grant: g, .. } ==> g == grant,
    {
        match require_auth(claims) {
            Err(error) => CredentialStep::Refused { error },
            Ok(identity) => match require_signing_key(key) {
                Err(error) => CredentialStep::Refused { error },
                Ok(_) => CredentialStep::Peek { grant, did: identity.did.clone() },
            },
        }
    }

    /// Takes the space that the token says it is for.
    pub fn peeked(self, subject: Option<String>) -> (r: CredentialStep)
        requires
            self is Peek,
        ensures
            match subject {
                None => r matches CredentialStep::Refused { error } && error@ == ErrorView::Auth(
                    "invalid delegation token"@,
                ),
                Some(s) => r == (CredentialStep::ReadSubject {
                    grant: self->Peek_grant,
                    did: self->Peek_did,
                    subject: s,
                }),
            },
            forall|a: Answers|
                a.peeked == option_text(subject) ==> #[trigger] r.leads_to(a) == self.leads_to(a),
    {
        match self {
            CredentialStep::Peek { grant, did } => match subject {
                None => CredentialStep::Refused { error: AppError::auth("invalid delegation token") },
                Some(subject) => CredentialStep::ReadSubject { grant, did, subject },
            },
            other => other,
        }
    }

    /// Takes the account whose space the token names, or that it names none. The token then has to be
    /// for the host of that account's spaces.
    pub fn subject(self, space_did: Option<String>) -> (r: CredentialStep)
        requires
            self is ReadSubject,
        ensures
            r matches CredentialStep::Verify { grant, did, audience } && grant
                == self->ReadSubject_grant && did == self->ReadSubject_did && audience@
                == space_host_text(
                match space_did {
                    Some(d) => d@,
                    None => Seq::empty(),
                },
            ),
            forall|a: Answers| #[trigger] r.leads_to(a) == self.leads_to(a),
    {
        match self {
            CredentialStep::ReadSubject { grant, did, .. } => {
                let owner = match space_did {
                    Some(d) => d,
                    None => String::new(),
                };
                CredentialStep::Verify { grant, did, audience: space_host(owner.as_str()) }
            },
            other => other,
        }
    }

    /// Takes issuer and subject of the token, or why it does not hold. Only the account that the
    /// token was issued to may exchange it.
    pub fn verified(self, answer: Result<(String, String), AppError>) -> (r: CredentialStep)
        requires
            self is Verify,
        ensures
            match answer {
                Err(e) => r matches CredentialStep::Refused { error } && error@ == e@,
                Ok(token) => if self->Verify_did@ == token.0@ {
                    r == (CredentialStep::Resolve { subject: token.1, did: self->Verify_did })
                } else {
                    r matches CredentialStep::Refused { error } && error@ == not_the_holder()
                },
            },
            forall|a: Answers|
                a.verified == (match answer {
                    Ok(token) => Ok::<(Seq<char>, Seq<char>), ErrorView>((token.0@, token.1@)),
                    Err(e) => Err(e@),
                }) ==> #[trigger] r.leads_to(a) == self.leads_to(a),
    {
        match self {
            CredentialStep::Verify { did, .. } => match answer {
                Err(error) => CredentialStep::Refused { error },
                Ok((issuer, subject)) => if same_text(did.as_str(), issuer.as_str()) {
                    CredentialStep::Resolve { subject, did }
                } else {
                    CredentialStep::Refused {
                        error: AppError::forbidden(
                            "delegation token was issued to a different account",
                        ),
                    }
                },
            },
            other => other,
        }
    }

    /// Takes the space that the token is for.
    pub fn space(self, found: Option<Space>) -> (r: CredentialStep)
        requires
            self is Resolve,
        ensures
            match found_space(found) {
                Err(e) => r matches CredentialStep::Refused { error } && error@ == e,
                Ok(s) => r == (CredentialStep::LookUpMember {
                    space: s,
                    did: self->Resolve_did,
                    membership: MembershipStep::LookUpMember { write: false },
                }),
            },
            forall|a: Answers| a.space == found ==> #[trigger] r.leads_to(a) == self.leads_to(a),
    {
        match self {
            CredentialStep::Resolve { did, .. } => match resolve_space(found) {
                Err(error) => CredentialStep::Refused { error },
                Ok(space) => {
                    let membership = MembershipStep::require_membership(&space, false, &None);
                    CredentialStep::LookUpMember { space, did, membership }
                },
            },
            other => other,
        }
    }

    /// Takes the caller's membership. It is asked for again at the exchange: whoever was removed
    /// since the token was issued gets no credential.
    pub fn member(self, found: Option<SpaceAccess>) -> (r: CredentialStep)
        requires
            self matches CredentialStep::LookUpMember { membership, .. } && membership is LookUpMember,
        ensures
            forall|a: Answers| a.member == found ==> #[trigger] r.leads_to(a) == self.leads_to(a),
            r is Issue || r is Refused,
    {
        match self {
            CredentialStep::LookUpMember { space, did, membership } => match membership.member(
                found,
            ) {
                MembershipStep::Admitted { .. } => CredentialStep::Issue { space, did },
                MembershipStep::Refused { error } => CredentialStep::Refused { error },
                membership => CredentialStep::LookUpMember { space, did, membership },
            },
            other => other,
        }
    }
}

/// A credential is issued only to the account that makes the request, on a token that was issued to
/// that account, and only while it is a member.
pub proof fn law_credentials_go_to_their_members(
    claims: XrpcClaims,
    key: Option<Seq<u8>>,
    a: Answers,
)
    ensures
        exchanged(claims, key, a) matches Ok(issued) ==> {
            &&& claims.identity matches Some(identity) && identity.did@ == issued.0
            &&& a.verified matches Ok(token) && token.0 == issued.0
            &&& a.member is Some
            &&& a.space == Some(issued.1)
        },
{
}

/// The query for the address that an API client is known by.
pub fn client_id_query(client_key: &str) -> (r: Statement)
    ensures
        r@ == (StatementView {
            sql: "SELECT client_id_url FROM happyview_api_clients WHERE client_key = ?"@,
            params: seq![ParamView::Text(client_key@)],
        }),
{
    Statement::new("SELECT client_id_url FROM happyview_api_clients WHERE client_key = ?").text(
        client_key,
    )
}

/// The query for the address of the API client that acts for an account, if one does.
pub fn resolve_client_id_url(claims: &Claims) -> (r: Option<Statement>)
    ensures
        match claims.client_key {
            None => r is None,
            Some(key) => r matches Some(s) && s@ == (StatementView {
                sql: "SELECT client_id_url FROM happyview_api_clients WHERE client_key = ?"@,
                params: seq![ParamView::Text(key@)],
            }),
        },
{
    match &claims.client_key {
        None => None,
        Some(key) => Some(client_id_query(key.as_str())),
    }
}

/// Whoever brings a delegation token that holds and was issued to it, and is a member of the space that
/// the token is for, whatever its access, is issued a credential for that space, wherever this
/// instance can sign.
pub proof fn law_members_get_their_credentials(
    claims: XrpcClaims,
    key: Seq<u8>,
    subject: Seq<char>,
    space: Space,
    access: SpaceAccess,
    a: Answers,
)
    requires
        claims.identity is Some,
        24 <= key.len() <= 32,
        0 < big_endian(key) < curve_order(),
        a.peeked is Some,
        a.verified == Ok::<(Seq<char>, Seq<char>), ErrorView>((claims.identity->0.did@, subject)),
        a.space == Some(space),
        a.member == Some(access),
    ensures
        exchanged(claims, Some(key), a) == Ok::<(Seq<char>, Space), ErrorView>(
            (claims.identity->0.did@, space),
        ),
{
}

/// Why there is no credential, in the order in which it is looked at: nobody stands behind the request,
/// this instance has no key or one that is none to sign with, the token cannot be read, it does not
/// hold, it was issued to another account, its space is not there, or its holder is no member any
/// more.
pub proof fn law_refused_exchange_says_why(claims: XrpcClaims, key: Option<Seq<u8>>, a: Answers)
    ensures
        ({
            let outcome = exchanged(claims, key, a);
            let refusal = |e: ErrorView| Err::<(Seq<char>, Space), ErrorView>(e);
            let can_sign = key matches Some(bytes) && 24 <= bytes.len() <= 32 && 0 < big_endian(bytes)
                && big_endian(bytes) < curve_order();
            let has_begun = claims.identity is Some && can_sign && a.peeked is Some;
            let is_held = has_begun && a.verified is Ok && a.verified->Ok_0.0
                == claims.identity->0.did@;
            &&& claims.identity is None ==> outcome == refusal(
                ErrorView::Auth("This endpoint requires authentication"@),
            )
            &&& claims.identity is Some && key is None ==> outcome == refusal(
                ErrorView::Internal("TOKEN_ENCRYPTION_KEY is required for space credentials"@),
            )
            &&& claims.identity is Some && key is Some && !can_sign ==> outcome == refusal(
                ErrorView::Internal(
                    "failed to derive delegation signing key: "@ + "signature error"@,
                ),
            )
            &&& claims.identity is Some && can_sign && a.peeked is None ==> outcome == refusal(
                ErrorView::Auth("invalid delegation token"@),
            )
            &&& has_begun && a.verified is Err ==> outcome == refusal(a.verified->Err_0)
            &&& has_begun && a.verified is Ok && !is_held ==> outcome == refusal(
                ErrorView::Forbidden("delegation token was issued to a different account"@),
            )
            &&& is_held && a.space is None ==> outcome == refusal(
                ErrorView::NotFound("Space not found"@),
            )
            &&& is_held && a.space is Some && a.member is None ==> outcome == refusal(
                ErrorView::Forbidden("You are not a member of this space"@),
            )
        }),
{
}

/// A delegation token is issued by the member to the host of the space's account, for the space, from the
/// second of its issue for its time to live, under the identifier that was drawn for it. Its written
/// expiry is the second at which it expires.
pub proof fn law_delegation_says_who_for_what_and_how_long(
    claims: DelegationTokenClaims,
    expires_at: Seq<char>,
    space: Space,
    did: Seq<char>,
    secs: u64,
    jti: Seq<char>,
)
    requires
        is_delegation(claims, expires_at, space, did, secs, jti),
    ensures
        claims.iss@ == did,
        claims.sub@ == space.uri_text(),
        claims.aud@ == space.did@ + "#atproto_space_host"@,
        claims.iat == secs,
        claims.exp == secs + 60,
        claims.jti@ == jti,
        expires_at == instant_text((claims.exp as i64) as int, 0),
{
}

/// There is a delegation token at every second from which it can hold its full time, and at no other.
pub proof fn law_delegation_is_there_while_seconds_last(
    token: Option<(DelegationTokenClaims, String)>,
    space: Space,
    did: Seq<char>,
    secs: u64,
    jti: Seq<char>,
)
    requires
        is_delegation_at(token, space, did, secs, jti),
    ensures
        token is Some <==> secs + 60 <= u64::MAX,
        token matches Some(t) ==> is_delegation(t.0, t.1@, space, did, secs, jti),
{
}

/// A key is taken by its bytes, and none as none.
pub proof fn law_key_is_its_bytes(key: Vec<u8>)
    ensures
        key_bytes(Some(key)) == Some(key@),
        key_bytes(None) is None,
{
}

/// A number by its bytes: nothing stands for zero, each further byte counts for what it is above 256
/// times those before it, and zeros in front do not matter.
pub proof fn law_bytes_count_from_the_most_significant(bytes: Seq<u8>, b: u8)
    ensures
        big_endian(Seq::empty()) == 0,
        big_endian(bytes.push(b)) == big_endian(bytes) * 256 + b,
        big_endian(seq![0u8] + bytes) == big_endian(bytes),
    decreases bytes.len(),
{
    assert(bytes.push(b).drop_last() =~= bytes);
    let padded = seq![0u8] + bytes;
    if bytes.len() > 0 {
        law_bytes_count_from_the_most_significant(bytes.drop_last(), b);
        assert(padded.drop_last() =~= seq![0u8] + bytes.drop_last());
    } else {
        assert(padded.drop_last() =~= Seq::<u8>::empty());
        assert(big_endian(padded.drop_last()) == 0);
    }
}

} // verus!
