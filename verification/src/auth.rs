//! Authentication of incoming requests: the bearer token of the
//! `authorization` header, the user its claims name, and the token blacklist.
//!
//! A request is decided in steps, since decoding the token and asking the
//! blacklist are done outside: [`auth_interceptor`] reads the header, and
//! [`auth_advance`] takes each outside answer in turn until the step is
//! [`AuthStep::Done`].
use vstd::prelude::*;
use crate::error::{error_view, ErrorView, ServiceError, StatusCode};
use crate::text::{
    decimal_text, has_prefix, is_ws, lemma_decimal_round_trip, lemma_trim_shape, parse_u64,
    parse_u64_spec, strip_prefix, trim, trim_spec,
};

verus! {

/// Name of the request header that carries the credentials.
pub const AUTHORIZATION: &'static str = "authorization";

/// Scheme the credentials must use.
pub const BEARER_PREFIX: &'static str = "Bearer ";

/// Secret the tokens are signed with when none is configured.
pub const DEFAULT_JWT_SECRET: &'static str = "dev-secret-change-me";

/// Refusal texts.
pub const MISSING_HEADER: &'static str = "Missing authorization header";

pub const INVALID_SCHEME: &'static str = "Invalid authorization scheme";

pub const EMPTY_TOKEN: &'static str = "Empty token";

pub const INVALID_TOKEN: &'static str = "Invalid or expired token";

pub const INVALID_USER_ID: &'static str = "Invalid user id in token";

pub const TOKEN_BLACKLISTED: &'static str = "Token is blacklisted";

pub const REPO_MISSING: &'static str = "RedisRepo is not initialized, please init in main first";

pub const REDIS_CHECK_FAILED: &'static str = "Redis check failed: ";

/// The user a request acts for.
#[derive(Clone, Debug)]
pub struct CurrentUser {
    pub user_id: u64,
    pub email: String,
}

/// The contents of a [`CurrentUser`].
pub struct UserView {
    pub user_id: u64,
    pub email: Seq<char>,
}

impl View for CurrentUser {
    type V = UserView;

    open spec fn view(&self) -> UserView {
        UserView { user_id: self.user_id, email: self.email@ }
    }
}

/// The claims of a signed token.
#[derive(Clone, Debug)]
pub struct JwtClaims {
    pub sub: String,
    pub email: String,
    pub exp: usize,
}

/// The contents of [`JwtClaims`].
pub struct ClaimsView {
    pub sub: Seq<char>,
    pub email: Seq<char>,
    pub exp: usize,
}

impl View for JwtClaims {
    type V = ClaimsView;

    open spec fn view(&self) -> ClaimsView {
        ClaimsView { sub: self.sub@, email: self.email@, exp: self.exp }
    }
}

/// What the blacklist answered for a token.
#[derive(Clone, Debug)]
pub enum BlacklistLookup {
    /// No cache connection was set up.
    RepoMissing,
    /// The cache could not be asked; the text says why.
    Failed(String),
    /// Whether the token is on the blacklist.
    Answered(bool),
}

/// The contents of a [`BlacklistLookup`].
pub enum LookupView {
    RepoMissing,
    Failed(Seq<char>),
    Answered(bool),
}

impl View for BlacklistLookup {
    type V = LookupView;

    open spec fn view(&self) -> LookupView {
        match self {
            BlacklistLookup::RepoMissing => LookupView::RepoMissing,
            BlacklistLookup::Failed(m) => LookupView::Failed(m@),
            BlacklistLookup::Answered(b) => LookupView::Answered(*b),
        }
    }
}

/// Where the decision on a request stands.
#[derive(Debug)]
pub enum AuthStep {
    /// The token must be decoded and checked against its signature and expiry.
    Decode { token: String },
    /// The token must be looked up in the blacklist.
    CheckBlacklist { token: String, user: CurrentUser },
    /// The request is let through for a user, or refused.
    Done { outcome: Result<CurrentUser, ServiceError> },
}

/// An outside answer the decision waits for.
#[derive(Clone, Debug)]
pub enum AuthEvent {
    /// The claims of the decoded token; `None` when the token is not validly
    /// signed, has expired, or its claims do not have the expected shape.
    Claims(Option<JwtClaims>),
    /// The blacklist's answer.
    Blacklist(BlacklistLookup),
}

/// The contents of an [`AuthStep`].
pub enum AuthStepView {
    Decode(Seq<char>),
    CheckBlacklist(Seq<char>, UserView),
    Done(Result<UserView, ErrorView>),
}

/// The contents of an [`AuthEvent`].
pub enum AuthEventView {
    Claims(Option<ClaimsView>),
    Blacklist(LookupView),
}

/// The contents of a decision.
pub open spec fn user_result_view(r: Result<CurrentUser, ServiceError>) -> Result<UserView, ErrorView> {
    match r {
        Ok(u) => Ok(u@),
        Err(e) => Err(e@),
    }
}

impl View for AuthStep {
    type V = AuthStepView;

    open spec fn view(&self) -> AuthStepView {
        match self {
            AuthStep::Decode { token } => AuthStepView::Decode(token@),
            AuthStep::CheckBlacklist { token, user } => AuthStepView::CheckBlacklist(
                token@,
                user@,
            ),
            AuthStep::Done { outcome } => AuthStepView::Done(user_result_view(*outcome)),
        }
    }
}

impl View for AuthEvent {
    type V = AuthEventView;

    open spec fn view(&self) -> AuthEventView {
        match self {
            AuthEvent::Claims(c) => AuthEventView::Claims(
                match c {
                    Some(c) => Some(c@),
                    None => None,
                },
            ),
            AuthEvent::Blacklist(l) => AuthEventView::Blacklist(l@),
        }
    }
}

/// The token of a header `h` that uses the bearer scheme: what follows the
/// scheme, trimmed.
pub open spec fn bearer_token_of(h: Seq<char>) -> Seq<char> {
    trim_spec(h.subrange(BEARER_PREFIX@.len() as int, h.len() as int))
}

/// The token the `authorization` header carries, or why it carries none.
pub open spec fn bearer_spec(header: Option<Seq<char>>) -> Result<Seq<char>, ErrorView> {
    match header {
        None => Err(error_view(StatusCode::Unauthenticated, MISSING_HEADER@)),
        Some(h) => if !has_prefix(h, BEARER_PREFIX@) {
            Err(error_view(StatusCode::Unauthenticated, INVALID_SCHEME@))
        } else if bearer_token_of(h).len() == 0 {
            Err(error_view(StatusCode::Unauthenticated, EMPTY_TOKEN@))
        } else {
            Ok(bearer_token_of(h))
        },
    }
}

/// The user that decoded claims name, or why they name none.
pub open spec fn claims_user_spec(claims: Option<ClaimsView>) -> Result<UserView, ErrorView> {
    match claims {
        None => Err(error_view(StatusCode::Unauthenticated, INVALID_TOKEN@)),
        Some(c) => match parse_u64_spec(c.sub) {
            None => Err(error_view(StatusCode::Unauthenticated, INVALID_USER_ID@)),
            Some(id) => Ok(UserView { user_id: id, email: c.email }),
        },
    }
}

/// Whether a token is blacklisted, from the blacklist's answer.
pub open spec fn lookup_spec(lookup: LookupView) -> Result<bool, ErrorView> {
    match lookup {
        LookupView::RepoMissing => Err(error_view(StatusCode::Internal, REPO_MISSING@)),
        LookupView::Failed(m) => Err(error_view(StatusCode::Internal, REDIS_CHECK_FAILED@ + m)),
        LookupView::Answered(b) => Ok(b),
    }
}

/// The first step for a request with the given `authorization` header.
pub open spec fn start_spec(header: Option<Seq<char>>) -> AuthStepView {
    match bearer_spec(header) {
        Ok(t) => AuthStepView::Decode(t),
        Err(e) => AuthStepView::Done(Err(e)),
    }
}

/// The step that follows `step` once `event` is known; an answer that
/// `step` does not wait for leaves it as it is.
pub open spec fn advance_spec(step: AuthStepView, event: AuthEventView) -> AuthStepView {
    match (step, event) {
        (AuthStepView::Decode(t), AuthEventView::Claims(c)) => match claims_user_spec(c) {
            Ok(u) => AuthStepView::CheckBlacklist(t, u),
            Err(e) => AuthStepView::Done(Err(e)),
        },
        (AuthStepView::CheckBlacklist(t, u), AuthEventView::Blacklist(l)) => match lookup_spec(
            l,
        ) {
            Ok(true) => AuthStepView::Done(
                Err(error_view(StatusCode::Unauthenticated, TOKEN_BLACKLISTED@)),
            ),
            Ok(false) => AuthStepView::Done(Ok(u)),
            Err(e) => AuthStepView::Done(Err(e)),
        },
        _ => step,
    }
}

/// The bearer token of an `authorization` header.
pub fn bearer_token(header: Option<&str>) -> (r: Result<&str, ServiceError>)
    ensures
        match (r, bearer_spec(
            match header {
                Some(h) => Some(h@),
                None => None,
            },
        )) {
            (Ok(t), Ok(s)) => t@ == s,
            (Err(e), Err(s)) => e@ == s,
            _ => false,
        },
{
    match header {
        None => Err(ServiceError::new(StatusCode::Unauthenticated, MISSING_HEADER)),
        Some(h) => match strip_prefix(h, BEARER_PREFIX) {
            None => Err(ServiceError::new(StatusCode::Unauthenticated, INVALID_SCHEME)),
            Some(rest) => {
                let token = trim(rest);
                if token.unicode_len() == 0 {
                    Err(ServiceError::new(StatusCode::Unauthenticated, EMPTY_TOKEN))
                } else {
                    Ok(token)
                }
            },
        },
    }
}

/// The user decoded claims name.
pub fn parse_token(claims: Option<JwtClaims>) -> (r: Result<CurrentUser, ServiceError>)
    ensures
        user_result_view(r) == claims_user_spec(
            match claims {
                Some(c) => Some(c@),
                None => None,
            },
        ),
{
    match claims {
        None => Err(ServiceError::new(StatusCode::Unauthenticated, INVALID_TOKEN)),
        Some(c) => match parse_u64(c.sub.as_str()) {
            None => Err(ServiceError::new(StatusCode::Unauthenticated, INVALID_USER_ID)),
            Some(user_id) => Ok(CurrentUser { user_id, email: c.email }),
        },
    }
}

/// Whether the token is blacklisted, from the blacklist's answer.
pub fn is_blacklisted(lookup: BlacklistLookup) -> (r: Result<bool, ServiceError>)
    ensures
        match (r, lookup_spec(lookup@)) {
            (Ok(b), Ok(s)) => b == s,
            (Err(e), Err(s)) => e@ == s,
            _ => false,
        },
{
    match lookup {
        BlacklistLookup::RepoMissing => Err(ServiceError::new(StatusCode::Internal, REPO_MISSING)),
        BlacklistLookup::Failed(m) => {
            let mut message = String::from_str(REDIS_CHECK_FAILED);
            message.append(m.as_str());
            Err(ServiceError { code: StatusCode::Internal, message })
        },
        BlacklistLookup::Answered(b) => Ok(b),
    }
}

/// The secret tokens are signed with: the configured one, or the default.
pub fn jwt_secret(configured: Option<String>) -> (r: String)
    ensures
        r@ == match configured {
            Some(s) => s@,
            None => DEFAULT_JWT_SECRET@,
        },
{
    match configured {
        Some(s) => s,
        None => String::from_str(DEFAULT_JWT_SECRET),
    }
}

/// The first step for a request with the given `authorization` header:
/// decode its bearer token, or refuse the request.
pub fn auth_interceptor(header: Option<&str>) -> (r: AuthStep)
    ensures
        r@ == start_spec(
            match header {
                Some(h) => Some(h@),
                None => None,
            },
        ),
{
    match bearer_token(header) {
        Ok(token) => AuthStep::Decode { token: String::from_str(token) },
        Err(e) => AuthStep::Done { outcome: Err(e) },
    }
}

/// The step that follows `step` once `event` is known.
pub fn auth_advance(step: AuthStep, event: AuthEvent) -> (r: AuthStep)
    ensures
        r@ == advance_spec(step@, event@),
{
    match (step, event) {
        (AuthStep::Decode { token }, AuthEvent::Claims(claims)) => match parse_token(claims) {
            Ok(user) => AuthStep::CheckBlacklist { token, user },
            Err(e) => AuthStep::Done { outcome: Err(e) },
        },
        (AuthStep::CheckBlacklist { token, user }, AuthEvent::Blacklist(lookup)) => {
            match is_blacklisted(lookup) {
                Ok(true) => AuthStep::Done {
                    outcome: Err(ServiceError::new(StatusCode::Unauthenticated, TOKEN_BLACKLISTED)),
                },
                Ok(false) => AuthStep::Done { outcome: Ok(user) },
                Err(e) => AuthStep::Done { outcome: Err(e) },
            }
        },
        (step, _) => step,
    }
}

/// The outcome for a request whose header is `header`, whose token decodes to
/// `claims`, and for which the blacklist answers `lookup`.
pub open spec fn auth_outcome(
    header: Option<Seq<char>>,
    claims: Option<ClaimsView>,
    lookup: LookupView,
) -> AuthStepView {
    advance_spec(
        advance_spec(start_spec(header), AuthEventView::Claims(claims)),
        AuthEventView::Blacklist(lookup),
    )
}

/// A request is let through exactly when its header uses the bearer scheme
/// with a non-blank token, the claims decoded from that token carry a decimal
/// user id, and the blacklist answers that the token is not on it; it is then
/// let through for the user id and email of those claims.
pub proof fn lemma_request_let_through(
    header: Option<Seq<char>>,
    claims: Option<ClaimsView>,
    lookup: LookupView,
    user: UserView,
)
    ensures
        auth_outcome(header, claims, lookup) == AuthStepView::Done(Ok(user)) <==> {
            &&& header matches Some(h) && has_prefix(h, BEARER_PREFIX@) && bearer_token_of(h).len()
                > 0
            &&& claims matches Some(c) && parse_u64_spec(c.sub) == Some(user.user_id) && c.email
                == user.email
            &&& lookup == LookupView::Answered(false)
        },
{
}

/// A refused request is refused as unauthenticated, except when the blacklist
/// could not be asked, which is an internal failure.
pub proof fn lemma_refusal_code(
    header: Option<Seq<char>>,
    claims: Option<ClaimsView>,
    lookup: LookupView,
    e: ErrorView,
)
    requires
        auth_outcome(header, claims, lookup) == AuthStepView::Done(Err(e)),
    ensures
        e.code == StatusCode::Unauthenticated || (e.code == StatusCode::Internal && (
        lookup is RepoMissing || lookup is Failed)),
{
}

/// The token looked up in the blacklist is the token that was decoded.
pub proof fn lemma_blacklist_checks_decoded_token(
    token: Seq<char>,
    claims: Option<ClaimsView>,
    next_token: Seq<char>,
    user: UserView,
)
    requires
        advance_spec(AuthStepView::Decode(token), AuthEventView::Claims(claims))
            == AuthStepView::CheckBlacklist(next_token, user),
    ensures
        next_token == token,
{
}

/// A decision, once made, is not changed by any later answer.
pub proof fn lemma_decision_final(outcome: Result<UserView, ErrorView>, event: AuthEventView)
    ensures
        advance_spec(AuthStepView::Done(outcome), event) == AuthStepView::Done(outcome),
{
}

/// The bearer scheme is the seven characters `Bearer ` (with its space).
pub proof fn lemma_bearer_prefix_text()
    ensures
        BEARER_PREFIX@ == seq!['B', 'e', 'a', 'r', 'e', 'r', ' '],
{
    reveal_strlit("Bearer ");
}

/// The token of a bearer header is all of what follows the scheme, with only
/// surrounding whitespace removed: a header using the scheme yields a token
/// exactly when something other than whitespace follows the scheme, and the
/// token is then the run of the remainder that starts at its first and ends
/// at its last non-whitespace character. A header that does not start with
/// the scheme yields none.
pub proof fn lemma_bearer_token_is_trimmed_remainder(h: Seq<char>)
    ensures
        !has_prefix(h, BEARER_PREFIX@) ==> bearer_spec(Some(h)) == Err::<Seq<char>, ErrorView>(
            error_view(StatusCode::Unauthenticated, INVALID_SCHEME@),
        ),
        has_prefix(h, BEARER_PREFIX@) ==> ({
            let rest = h.subrange(BEARER_PREFIX@.len() as int, h.len() as int);
            &&& (bearer_spec(Some(h)) is Ok <==> exists|k: int|
                0 <= k < rest.len() && !is_ws(#[trigger] rest[k]))
            &&& forall|t: Seq<char>|
                bearer_spec(Some(h)) == Ok::<Seq<char>, ErrorView>(t) ==> {
                    &&& start_spec(Some(h)) == AuthStepView::Decode(t)
                    &&& exists|i: int, j: int|
                        {
                            &&& 0 <= i < j <= rest.len()
                            &&& t == #[trigger] rest.subrange(i, j)
                            &&& forall|k: int| 0 <= k < i ==> is_ws(#[trigger] rest[k])
                            &&& forall|k: int| j <= k < rest.len() ==> is_ws(#[trigger] rest[k])
                            &&& !is_ws(rest[i]) && !is_ws(rest[j - 1])
                        }
                }
        }),
{
    if has_prefix(h, BEARER_PREFIX@) {
        let rest = h.subrange(BEARER_PREFIX@.len() as int, h.len() as int);
        lemma_trim_shape(rest);
        assert(bearer_token_of(h) == trim_spec(rest));
        let (i, j) = choose|i: int, j: int|
            {
                &&& 0 <= i <= j <= rest.len()
                &&& #[trigger] trim_spec(rest) == rest.subrange(i, j)
                &&& forall|k: int| 0 <= k < i ==> is_ws(#[trigger] rest[k])
                &&& forall|k: int| j <= k < rest.len() ==> is_ws(#[trigger] rest[k])
                &&& i < j ==> !is_ws(rest[i]) && !is_ws(rest[j - 1])
            };
        if bearer_spec(Some(h)) is Ok {
            assert(trim_spec(rest).len() > 0);
            assert(!is_ws(rest[i]));
        }
        assert forall|t: Seq<char>|
            bearer_spec(Some(h)) == Ok::<Seq<char>, ErrorView>(t) implies {
                &&& start_spec(Some(h)) == AuthStepView::Decode(t)
                &&& exists|i: int, j: int|
                    {
                        &&& 0 <= i < j <= rest.len()
                        &&& t == #[trigger] rest.subrange(i, j)
                        &&& forall|k: int| 0 <= k < i ==> is_ws(#[trigger] rest[k])
                        &&& forall|k: int| j <= k < rest.len() ==> is_ws(#[trigger] rest[k])
                        &&& !is_ws(rest[i]) && !is_ws(rest[j - 1])
                    }
            } by {
            assert(t == rest.subrange(i, j));
            assert(i < j);
        }
    }
}

/// A token whose claims carry the decimal text of a user id is let on for
/// that very user id and the claims' email.
pub proof fn lemma_claims_user_round_trip(id: u64, claims: ClaimsView)
    requires
        claims.sub == decimal_text(id as int),
    ensures
        claims_user_spec(Some(claims)) == Ok::<UserView, ErrorView>(
            UserView { user_id: id, email: claims.email },
        ),
{
    lemma_decimal_round_trip(id);
}

/// What the blacklist answers decides the request as stated: an answer is
/// passed on, and a failed lookup is an internal failure whose text ends with
/// the lookup's own message.
pub proof fn lemma_lookup_outcomes(lookup: LookupView)
    ensures
        lookup matches LookupView::Answered(b) ==> lookup_spec(lookup) == Ok::<bool, ErrorView>(b),
        lookup matches LookupView::Failed(m) ==> (lookup_spec(lookup) matches Err(e) && e.code
            == StatusCode::Internal && e.message.len() >= m.len() && e.message.subrange(
            e.message.len() - m.len(),
            e.message.len() as int,
        ) == m),
        lookup is RepoMissing ==> (lookup_spec(lookup) matches Err(e) && e.code
            == StatusCode::Internal),
{
    if let LookupView::Failed(m) = lookup {
        let msg = REDIS_CHECK_FAILED@ + m;
        assert(msg.subrange(msg.len() - m.len(), msg.len() as int) =~= m);
    }
}

} // verus!
