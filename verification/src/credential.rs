//! Credentials with an expiry: when one can still be used, when it has to be
//! renewed, and when it cannot be renewed any more. Instants are nanoseconds
//! since the epoch.

use crate::assertion::NANOS_PER_SECOND;
use crate::token::ResponseAccessTokens;
use vstd::prelude::*;

verus! {

/// Seconds that an access token is taken to live where the platform does not
/// say how long it does.
pub const DEFAULT_TOKEN_LIFETIME_SECS: u64 = 600;

/// The access token of an installation and the instant at which it expires.
#[derive(Debug)]
pub struct InstallationCredential {
    pub installation_id: i64,
    pub access_token: String,
    pub expires_at: i128,
}

impl InstallationCredential {
    /// The credential that the platform granted to `installation_id`.
    pub fn from_response(installation_id: i64, tokens: ResponseAccessTokens) -> (credential:
        InstallationCredential)
        ensures
            credential.installation_id == installation_id,
            credential.access_token@ == tokens.token@,
            credential.expires_at == tokens.expires_at,
    {
        InstallationCredential {
            installation_id,
            access_token: tokens.token,
            expires_at: tokens.expires_at,
        }
    }

    /// Whether the credential can still be used at `now`: up to and
    /// including the instant of its expiry.
    pub fn is_usable_at(&self, now: i128) -> (usable: bool)
        ensures
            usable == (now <= self.expires_at),
    {
        now <= self.expires_at
    }
}

/// The tokens that the store holds for a user, each with its expiry.
#[derive(Debug, Clone)]
pub struct UserTokens {
    pub access_token: Option<String>,
    pub access_token_expire: Option<i128>,
    pub refresh_token: Option<String>,
    pub refresh_token_expire: Option<i128>,
}

/// How a user's access token is come by.
#[derive(Debug)]
pub enum TokenPlan {
    /// The stored access token has not expired and is used.
    Use { access_token: String },
    /// The stored access token has expired and the refresh token has not: a
    /// new access token is asked for with the refresh token.
    Exchange { refresh_token: String },
    /// There is no way to an access token: the user is not known, a token
    /// or an expiry is missing, or the refresh token has expired as well.
    Unavailable,
}

/// How an access token is come by, as plain values.
pub enum TokenPlanView {
    Use { access_token: Seq<char> },
    Exchange { refresh_token: Seq<char> },
    Unavailable,
}

impl View for TokenPlan {
    type V = TokenPlanView;

    open spec fn view(&self) -> TokenPlanView {
        match *self {
            TokenPlan::Use { access_token } => TokenPlanView::Use { access_token: access_token@ },
            TokenPlan::Exchange { refresh_token } => TokenPlanView::Exchange {
                refresh_token: refresh_token@,
            },
            TokenPlan::Unavailable => TokenPlanView::Unavailable,
        }
    }
}

/// How the access token of a user is come by at `now`, given what the store
/// holds for the user, if it knows the user at all.
pub open spec fn planned(user: Option<UserTokens>, now: i128) -> TokenPlanView {
    match user {
        None => TokenPlanView::Unavailable,
        Some(tokens) => match (
            tokens.access_token,
            tokens.access_token_expire,
            tokens.refresh_token,
            tokens.refresh_token_expire,
        ) {
            (Some(access), Some(access_expire), Some(refresh), Some(refresh_expire)) => if now
                <= access_expire {
                TokenPlanView::Use { access_token: access@ }
            } else if now > refresh_expire {
                TokenPlanView::Unavailable
            } else {
                TokenPlanView::Exchange { refresh_token: refresh@ }
            },
            _ => TokenPlanView::Unavailable,
        },
    }
}

/// Decides how the access token of a user is come by at `now`.
pub fn token_plan(user: Option<&UserTokens>, now: i128) -> (plan: TokenPlan)
    ensures
        plan@ == planned(
            match user {
                Some(tokens) => Some(*tokens),
                None => None,
            },
            now,
        ),
{
    match user {
        None => TokenPlan::Unavailable,
        Some(tokens) => match (
            &tokens.access_token,
            &tokens.access_token_expire,
            &tokens.refresh_token,
            &tokens.refresh_token_expire,
        ) {
            (Some(access), Some(access_expire), Some(refresh), Some(refresh_expire)) => {
                if now <= *access_expire {
                    TokenPlan::Use { access_token: access.clone() }
                } else if now > *refresh_expire {
                    TokenPlan::Unavailable
                } else {
                    TokenPlan::Exchange { refresh_token: refresh.clone() }
                }
            },
            _ => TokenPlan::Unavailable,
        },
    }
}

/// The instant at which a token that was granted at `now` expires: after
/// the lifetime that the platform named, or after ten minutes where it named
/// none.
pub open spec fn expiry_from(now: int, lifetime_secs: Option<u64>) -> int {
    now + (match lifetime_secs {
        Some(seconds) => seconds as int,
        None => DEFAULT_TOKEN_LIFETIME_SECS as int,
    }) * (NANOS_PER_SECOND as int)
}

/// Computes the instant at which a token that was granted at `now` expires;
/// `None` where that instant cannot be held.
pub fn expiry_after(now: i128, lifetime_secs: Option<u64>) -> (expiry: Option<i128>)
    ensures
        match expiry {
            Some(instant) => instant == expiry_from(now as int, lifetime_secs),
            None => expiry_from(now as int, lifetime_secs) > i128::MAX,
        },
{
    let seconds: u64 = match lifetime_secs {
        Some(seconds) => seconds,
        None => DEFAULT_TOKEN_LIFETIME_SECS,
    };
    assert(seconds * NANOS_PER_SECOND <= 0xffff_ffff_ffff_ffff * 1_000_000_000) by (nonlinear_arith)
        requires
            0 <= seconds <= 0xffff_ffff_ffff_ffff,
            NANOS_PER_SECOND == 1_000_000_000,
    ;
    let lifetime: i128 = (seconds as i128) * NANOS_PER_SECOND;
    now.checked_add(lifetime)
}

} // verus!
