//! Access tokens: how soon they expire, and the long-lived token exchange.
use crate::json::{get_member, required_text, required_unsigned, DecodeError, Json};
use crate::link::same_text;
use crate::numeric::{decimal, encode_integer};
use crate::time::{Instant, NANOS_PER_SECOND};
use crate::version::{version_text, GraphApiVersion};
use vstd::prelude::*;
use vstd::string::*;

verus! {

/// The number of seconds in a day.
pub const SECONDS_PER_DAY: i64 = 86400;

/// How close a token is to its expiration.
#[derive(Clone, Copy, Debug, PartialEq, Eq, Structural)]
pub enum TokenStatus {
    Valid,
    Expired,
    ExpiringSoon,
}

/// An access token and when it expires.
#[derive(Clone, Debug, PartialEq, Eq)]
pub struct Creds {
    pub token: String,
    pub expiration: Instant,
}

/// The status of a token expiring at `expiration`, seen at `now`: expired once
/// `now` is past the expiration, expiring soon while less than a day remains.
pub open spec fn status_at(expiration: Instant, now: Instant) -> TokenStatus {
    let remaining = expiration.total_nanos() - now.total_nanos();
    if remaining < 0 {
        TokenStatus::Expired
    } else if remaining < SECONDS_PER_DAY * NANOS_PER_SECOND {
        TokenStatus::ExpiringSoon
    } else {
        TokenStatus::Valid
    }
}

impl Creds {
    /// The status of this token at `now`.
    pub fn status(&self, now: Instant) -> (r: TokenStatus)
        requires
            self.expiration.wf(),
            now.wf(),
        ensures
            r == status_at(self.expiration, now),
    {
        let exp = (self.expiration.seconds as i128) * (NANOS_PER_SECOND as i128)
            + self.expiration.nanos as i128;
        let at = (now.seconds as i128) * (NANOS_PER_SECOND as i128) + now.nanos as i128;
        let remaining = exp - at;
        if remaining < 0 {
            TokenStatus::Expired
        } else if remaining < (SECONDS_PER_DAY as i128) * (NANOS_PER_SECOND as i128) {
            TokenStatus::ExpiringSoon
        } else {
            TokenStatus::Valid
        }
    }
}

/// The kind of a token.
#[derive(Clone, Copy, Debug, PartialEq, Eq, Structural)]
pub enum TokenType {
    Bearer,
}

/// The answer to a token exchange: the long-lived token, its kind, and how
/// many seconds it lasts.
#[derive(Clone, Debug, PartialEq, Eq)]
pub struct Response {
    pub access_token: String,
    pub token_type: TokenType,
    pub expires_in: u32,
}

impl Response {
    /// How many seconds the token lasts.
    pub fn duration(&self) -> (r: u64)
        ensures
            r == self.expires_in,
    {
        self.expires_in as u64
    }

    /// The credentials of this token, received at `now`: it expires
    /// `expires_in` seconds later, in whole seconds.
    pub fn creds(&self, now: Instant) -> (r: Creds)
        requires
            now.seconds + self.expires_in <= i64::MAX,
        ensures
            r.token@ == self.access_token@,
            r.expiration.seconds == now.seconds + self.expires_in,
            r.expiration.nanos == 0,
    {
        Creds {
            token: self.access_token.clone(),
            expiration: Instant { seconds: now.seconds + self.expires_in as i64, nanos: 0 },
        }
    }

    /// Reads the answer to a token exchange: a string `access_token`, the
    /// `token_type` `bearer`, and `expires_in` seconds that fit in 32 bits.
    pub fn decode(j: &Json) -> (r: Result<Response, DecodeError>)
        ensures
            match r {
                Ok(t) => match crate::json::members(*j) {
                    Some(es) => {
                        &&& crate::json::text_of(crate::json::member(es, "access_token"@)) == Some(
                            t.access_token@,
                        )
                        &&& crate::json::text_of(crate::json::member(es, "token_type"@)) == Some(
                            "bearer"@,
                        )
                        &&& crate::json::unsigned_of(
                            crate::json::member(es, "expires_in"@),
                            u32::MAX as u64,
                        ) == Some(t.expires_in as u64)
                    },
                    None => false,
                },
                Err(_) => match crate::json::members(*j) {
                    Some(es) => crate::json::text_of(crate::json::member(es, "access_token"@)) is None
                        || crate::json::text_of(crate::json::member(es, "token_type"@)) != Some(
                        "bearer"@,
                    ) || crate::json::unsigned_of(
                        crate::json::member(es, "expires_in"@),
                        u32::MAX as u64,
                    ) is None,
                    None => true,
                },
            },
    {
        let es = match j {
            Json::Object(es) => es,
            _ => return Err(DecodeError::UnexpectedShape),
        };
        let access_token = required_text(get_member(es, "access_token"))?;
        let kind = required_text(get_member(es, "token_type"))?;
        if !same_text(kind.as_str(), "bearer") {
            return Err(DecodeError::UnexpectedShape);
        }
        let expires_in = required_unsigned(get_member(es, "expires_in"), u32::MAX as u64)?;
        Ok(Response { access_token, token_type: TokenType::Bearer, expires_in: expires_in as u32 })
    }
}

/// The URL that exchanges a short-lived token for a long-lived one.
pub open spec fn upgrade_url(
    version: GraphApiVersion,
    app_id: u64,
    app_secret: Seq<char>,
    token: Seq<char>,
) -> Seq<char> {
    "https://graph.facebook.com/v"@ + version_text(version.major, version.minor)
        + "/oauth/access_token?grant_type=fb_exchange_token&client_id="@ + decimal(app_id as nat)
        + "&client_secret="@ + app_secret + "&fb_exchange_token="@ + token
}

/// Writes the URL that exchanges a short-lived token for a long-lived one.
pub fn upgrade_token_url(version: GraphApiVersion, app_id: u64, app_secret: &str, token: &str) -> (r:
    String)
    ensures
        r@ == upgrade_url(version, app_id, app_secret@, token@),
{
    let mut url = String::from_str("https://graph.facebook.com/v");
    let v = version.to_text();
    url.append(v.as_str());
    url.append("/oauth/access_token?grant_type=fb_exchange_token&client_id=");
    let id = encode_integer(app_id);
    url.append(id.as_str());
    url.append("&client_secret=");
    url.append(app_secret);
    url.append("&fb_exchange_token=");
    url.append(token);
    url
}

} // verus!
