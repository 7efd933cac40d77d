//! Tokens that let a participant join a room.
use vstd::prelude::*;

use crate::voice::livekit::{LiveKitConfig, LiveKitConfigError, LiveKitConfigErrorView};

verus! {

/// What a token tells: who it is for, and what they may do in which room.
#[derive(Debug)]
pub struct TokenClaims {
    pub identity: String,
    pub name: String,
    pub room: String,
    pub room_join: bool,
    pub can_publish: bool,
    pub can_subscribe: bool,
}

#[verifier::ext_equal]
pub struct TokenClaimsView {
    pub identity: Seq<char>,
    pub name: Seq<char>,
    pub room: Seq<char>,
    pub room_join: bool,
    pub can_publish: bool,
    pub can_subscribe: bool,
}

impl View for TokenClaims {
    type V = TokenClaimsView;

    open spec fn view(&self) -> TokenClaimsView {
        TokenClaimsView {
            identity: self.identity@,
            name: self.name@,
            room: self.room@,
            room_join: self.room_join,
            can_publish: self.can_publish,
            can_subscribe: self.can_subscribe,
        }
    }
}

/// Who issued a token, what it tells, and when it ends, in seconds since 1970, as
/// `Claims::from_unverified` reads it.
pub uninterp spec fn unverified_claims(token: Seq<char>) -> Option<
    (Seq<char>, TokenClaimsView, usize),
>;

/// Whether a token's signature is that of a secret, as `jsonwebtoken::crypto::verify` finds.
pub uninterp spec fn signed_with(token: Seq<char>, secret: Seq<char>) -> bool;

/// Why a token cannot be made.
pub open spec fn token_fault(
    api_key: Seq<char>,
    api_secret: Seq<char>,
    claims: TokenClaimsView,
) -> Option<Seq<char>> {
    if api_key.len() == 0 || api_secret.len() == 0 {
        Some("Invalid API Key or Secret Key"@)
    } else if claims.room_join && (claims.identity.len() == 0 || claims.room.len() == 0) {
        Some("invalid claims: token grants room_join but doesn't have an identity or room"@)
    } else {
        None
    }
}

/// Whether a token is issued by a key and tells the claims, is signed with the secret, and, on a
/// machine of 64 bits, counts at least so many seconds to its end.
pub open spec fn issued(
    token: Seq<char>,
    api_key: Seq<char>,
    api_secret: Seq<char>,
    claims: TokenClaimsView,
    ttl_secs: nat,
) -> bool {
    &&& unverified_claims(token) matches Some((issuer, told, end)) && issuer == api_key && told
        == claims && (usize::BITS == 64 ==> end >= ttl_secs)
    &&& signed_with(token, api_secret)
}

/// What a token is made of: the key and its secret, the time to live, and what the token tells.
#[derive(Debug)]
pub struct TokenRequest {
    pub api_key: String,
    pub api_secret: String,
    pub ttl_secs: u64,
    pub ttl_nanos: u32,
    pub claims: TokenClaims,
}

/// The span, in seconds, under which a token's end can be counted whatever the clock reads: added
/// to the clock's reading, a longer one may not fit.
pub const TTL_SECS_LIMIT: u64 = 0x8000_0000_0000_0000;

/// `AccessToken` of `livekit_api`, built with a key, a time to live, an identity, a name and the
/// grants of a room, and made with `to_jwt`: a token is refused without keys, or where it lets join
/// a room without naming the participant and the room; otherwise it is issued by the key, tells what
/// was given, and is signed with the secret. It ends its time to live after the clock's reading,
/// which is a time after 1970, so that on a machine of 64 bits its end counts at least the seconds
/// of its time to live; how many more depends on the clock and is not stated, and neither are the
/// grants that are left at their defaults.
#[verifier::external_body]
pub(crate) fn sign_token(request: &TokenRequest) -> (token: std::result::Result<String, String>)
    requires
        request.ttl_secs < TTL_SECS_LIMIT,
        request.ttl_nanos < 1_000_000_000,
    ensures
        match token_fault(request.api_key@, request.api_secret@, request.claims@) {
            Some(fault) => token is Err && token->Err_0@ == fault,
            None => {
                &&& token is Ok
                &&& unverified_claims(token->Ok_0@) matches Some((issuer, told, end)) && issuer
                    == request.api_key@ && told == request.claims@ && (usize::BITS == 64 ==> end
                    >= request.ttl_secs)
                &&& signed_with(token->Ok_0@, request.api_secret@)
            },
        },
{
    livekit_api::access_token::AccessToken::with_api_key(&request.api_key, &request.api_secret)
        .with_ttl(std::time::Duration::new(request.ttl_secs, request.ttl_nanos))
        .with_identity(&request.claims.identity)
        .with_name(&request.claims.name)
        .with_grants(livekit_api::access_token::VideoGrants {
            room_join: request.claims.room_join,
            room: request.claims.room.clone(),
            can_publish: request.claims.can_publish,
            can_subscribe: request.claims.can_subscribe,
            ..Default::default()
        })
        .to_jwt()
        .map_err(|error| error.to_string())
}

impl LiveKitConfig {
    /// What a token of this configuration tells: the participant may join the room, publish and
    /// subscribe.
    pub open spec fn claims(&self) -> TokenClaimsView {
        TokenClaimsView {
            identity: self.identity@,
            name: self.name@,
            room: self.room@,
            room_join: true,
            can_publish: true,
            can_subscribe: true,
        }
    }

    /// What a token of this configuration is made of.
    pub fn token_request(&self) -> (request: TokenRequest)
        ensures
            request.api_key@ == self.api_key@,
            request.api_secret@ == self.api_secret@,
            request.ttl_secs == self.token_ttl.total_nanos() / 1_000_000_000,
            request.ttl_nanos == self.token_ttl.total_nanos() % 1_000_000_000,
            request.claims@ == self.claims(),
    {
        TokenRequest {
            api_key: self.api_key.clone(),
            api_secret: self.api_secret.clone(),
            ttl_secs: self.token_ttl.as_secs(),
            ttl_nanos: self.token_ttl.subsec_nanos(),
            claims: TokenClaims {
                identity: self.identity.clone(),
                name: self.name.clone(),
                room: self.room.clone(),
                room_join: true,
                can_publish: true,
                can_subscribe: true,
            },
        }
    }

    /// A token that lets the participant join the room, publish and subscribe, for the time to live.
    pub fn access_token(&self) -> (token: std::result::Result<String, LiveKitConfigError>)
        requires
            self.token_ttl.total_nanos() < TTL_SECS_LIMIT * 1_000_000_000,
        ensures
            match token_fault(self.api_key@, self.api_secret@, self.claims()) {
                Some(fault) => token is Err && token->Err_0@ == LiveKitConfigErrorView::Token(
                    fault,
                ),
                None => token matches Ok(token) && issued(
                    token@,
                    self.api_key@,
                    self.api_secret@,
                    self.claims(),
                    (self.token_ttl.total_nanos() / 1_000_000_000) as nat,
                ),
            },
    {
        match sign_token(&self.token_request()) {
            Ok(token) => Ok(token),
            Err(fault) => Err(LiveKitConfigError::Token(fault)),
        }
    }
}

/// A token can be made exactly where there are a key and a secret, and the participant and the room
/// are named; it lets them join that room, publish and subscribe.
pub proof fn tokens_name_participant_and_room(config: LiveKitConfig)
    ensures
        token_fault(config.api_key@, config.api_secret@, config.claims()) is None
            <==> config.api_key@.len() > 0 && config.api_secret@.len() > 0 && config.identity@.len()
            > 0 && config.room@.len() > 0,
        config.claims().room_join && config.claims().can_publish && config.claims().can_subscribe,
        config.claims().identity == config.identity@,
        config.claims().name == config.name@,
        config.claims().room == config.room@,
{
}

} // verus!
