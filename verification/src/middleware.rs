//! What the authorization of a request decides.
//!
//! Before a request reaches the pipeline, the player's credentials are put
//! to the game-saves service of the player's channel. This module holds the
//! decisions of that check; the caller does the asking.

use crate::handlers::{DistributionChannel, BETA_CHANNEL};
use crate::models::{GameSavesMetadataRequest, GameSavesMetadataResponse};
use crate::text::{push_text, same_text};
use crate::utilities::{
    header_credentials, safe_basic_auth_decoder, AuthData, HeaderError, InvalidItems,
};
use vstd::prelude::*;

verus! {

/// Why the game-saves service does not vouch for a player.
#[derive(Clone, Copy, Debug, PartialEq, Eq, Structural)]
pub enum AuthFailure {
    TokenExpired,
    InvalidCredentials,
}

/// The status of a request whose credentials are not vouched for.
pub const UNAUTHORIZED: u16 = 401;

pub const TOKEN_EXPIRED: &'static str = "Token expired";

pub const INVALID_CREDENTIALS: &'static str = "Invalid credentials";

/// The action that asks for a save's metadata.
pub const GET_METADATA: &'static str = "getmetadata";

impl AuthFailure {
    /// What the caller is told.
    pub fn message(self) -> (message: &'static str)
        ensures
            message == match self {
                AuthFailure::TokenExpired => TOKEN_EXPIRED,
                AuthFailure::InvalidCredentials => INVALID_CREDENTIALS,
            },
    {
        match self {
            AuthFailure::TokenExpired => TOKEN_EXPIRED,
            AuthFailure::InvalidCredentials => INVALID_CREDENTIALS,
        }
    }
}

/// What the headers of a request must carry: the player's credentials and
/// the channel of the player's client.
#[derive(Clone, Debug)]
pub struct PlayerHeaders {
    pub auth: AuthData,
    pub distribution_channel: DistributionChannel,
}

/// Reads the headers that the authorization needs, the authorization header
/// first.
///
/// A missing or malformed authorization header is refused as such, whatever
/// the channel header is; after it, a missing channel header is refused.
pub fn read_headers(auth_header: Option<&str>, distribution_header: Option<&str>) -> (headers:
    Result<PlayerHeaders, HeaderError>)
    ensures
        match headers {
            Ok(headers) => auth_header is Some && header_credentials(auth_header->0@) == Some(
                (headers.auth.email@, headers.auth.token@),
            ) && distribution_header is Some && headers.distribution_channel.0@
                == distribution_header->0@,
            Err(HeaderError::InvalidAuthorization) => auth_header is None || header_credentials(
                auth_header->0@,
            ) is None,
            Err(HeaderError::InvalidHeader) => auth_header is Some && header_credentials(
                auth_header->0@,
            ) is Some && distribution_header is None,
        },
{
    let auth_header: &str = auth_header.invalid_auth()?;
    let auth: AuthData = safe_basic_auth_decoder(auth_header)?;
    let distribution_header: &str = distribution_header.invalid_header()?;
    let mut channel: String = String::new();
    push_text(&mut channel, distribution_header);
    Ok(PlayerHeaders { auth, distribution_channel: DistributionChannel(channel) })
}

/// The game-saves service of a channel: the development service for the
/// beta channel, the production service for every other.
pub fn choose_api<'a>(distribution_channel: &str, dev_api: &'a str, prod_api: &'a str) -> (url:
    &'a str)
    ensures
        url == if distribution_channel@ == BETA_CHANNEL@ {
            dev_api
        } else {
            prod_api
        },
{
    if same_text(distribution_channel, BETA_CHANNEL) {
        dev_api
    } else {
        prod_api
    }
}

/// The question that puts a player's credentials to the game-saves
/// service.
pub fn metadata_request(auth: &AuthData) -> (request: GameSavesMetadataRequest)
    ensures
        request.action@ == GET_METADATA@,
        request.username@ == auth.email@,
        request.token@ == auth.token@,
{
    let mut action: String = String::new();
    push_text(&mut action, GET_METADATA);
    GameSavesMetadataRequest { action, username: auth.email.clone(), token: auth.token.clone() }
}

/// What an answer of the game-saves service says of the credentials: an
/// answer that reports an expired token refuses them as expired, an answer
/// without an error and without a type refuses them as invalid, every other
/// answer vouches for them.
pub open spec fn verdict(response: GameSavesMetadataResponse) -> Result<(), AuthFailure> {
    match response.error {
        Some(error) => if error@ == TOKEN_EXPIRED@ {
            Err(AuthFailure::TokenExpired)
        } else {
            Ok(())
        },
        None => if response.response_type is None {
            Err(AuthFailure::InvalidCredentials)
        } else {
            Ok(())
        },
    }
}

/// Judges an answer of the game-saves service.
pub fn judge_response(response: &GameSavesMetadataResponse) -> (judged: Result<(), AuthFailure>)
    ensures
        judged == verdict(*response),
{
    match &response.error {
        Some(error) => if same_text(error.as_str(), TOKEN_EXPIRED) {
            Err(AuthFailure::TokenExpired)
        } else {
            Ok(())
        },
        None => if response.response_type.is_none() {
            Err(AuthFailure::InvalidCredentials)
        } else {
            Ok(())
        },
    }
}

} // verus!
