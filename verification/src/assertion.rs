//! The credential minter: the signed, short-lived assertion with which the
//! application identifies itself when it asks for an installation token.

use josekit::jws::{JwsHeader, RS256};
use josekit::jwt::{encode_with_signer, JwtPayload};
use josekit::JoseError;
use std::time::{Duration, SystemTime};
use time::OffsetDateTime;
use vstd::prelude::*;

verus! {

/// Seconds by which the issue time is moved into the past, so that a verifier
/// whose clock runs slightly behind still accepts the assertion.
pub const CLOCK_SKEW_SECS: u64 = 10;

/// Seconds between the issue time and the expiry of an assertion: eight
/// minutes and ten seconds, which leaves the assertion valid for eight
/// minutes from the moment it is made.
pub const ASSERTION_LIFETIME_SECS: u64 = 490;

/// Seconds that the platform accepts at most between the moment an assertion
/// is made and its expiry.
pub const PLATFORM_LIFETIME_CAP_SECS: u64 = 600;

/// The last second, counted from the epoch, that a claim may name: the end
/// of the year 9999.
pub const MAX_CLAIM_TIME: u64 = 253_402_300_799;

/// Nanoseconds in a second.
pub const NANOS_PER_SECOND: i128 = 1_000_000_000;

/// Issue time of an assertion made at `now` (seconds since the epoch).
pub open spec fn issued_at_for(now: int) -> int {
    now - CLOCK_SKEW_SECS
}

/// Expiry of an assertion made at `now` (seconds since the epoch).
pub open spec fn expires_at_for(now: int) -> int {
    issued_at_for(now) + ASSERTION_LIFETIME_SECS
}

/// Whether an assertion can be made at `now`: its claims must be times from
/// the epoch to `MAX_CLAIM_TIME`.
pub open spec fn can_assert_at(now: int) -> bool {
    CLOCK_SKEW_SECS <= now && expires_at_for(now) <= MAX_CLAIM_TIME
}

/// The whole seconds since the epoch of a time given in nanoseconds since
/// the epoch, where the time is not before the epoch and its seconds are no
/// more than `MAX_CLAIM_TIME`.
pub open spec fn whole_seconds(nanos: int) -> Option<int> {
    if 0 <= nanos && nanos / (NANOS_PER_SECOND as int) <= MAX_CLAIM_TIME {
        Some(nanos / (NANOS_PER_SECOND as int))
    } else {
        None
    }
}

/// The compact serialisation that josekit gives to a token with the header
/// `typ` = `token_type`, the claims `iat`, `exp` and `iss` in this order,
/// and an RS256 signature made with the private key in `private_key_pem`;
/// `None` where josekit reports an error, as it does for a key that is
/// malformed or shorter than 2048 bits.
pub uninterp spec fn rs256_compact(
    token_type: Seq<char>,
    issuer: Seq<char>,
    issued_at: int,
    expires_at: int,
    private_key_pem: Seq<char>,
) -> Option<Seq<char>>;

#[verifier::external_type_specification]
#[verifier::external_body]
pub struct ExJoseError(JoseError);

/// Builds a header and a payload with josekit and calls its
/// `jwt::encode_with_signer` with a signer that `RS256.signer_from_pem` made
/// from `private_key_pem`. The signature scheme is deterministic, so the
/// token is a function of the arguments: the contract gives it the name
/// `rs256_compact` and claims nothing more. The times must not exceed
/// `MAX_CLAIM_TIME`, so that they can be held as points in time.
#[verifier::external_body]
fn sign_rs256(
    token_type: &str,
    issuer: &str,
    issued_at: u64,
    expires_at: u64,
    private_key_pem: &str,
) -> (signed: Result<String, JoseError>)
    requires
        issued_at <= MAX_CLAIM_TIME,
        expires_at <= MAX_CLAIM_TIME,
    ensures
        match signed {
            Ok(token) => rs256_compact(
                token_type@,
                issuer@,
                issued_at as int,
                expires_at as int,
                private_key_pem@,
            ) == Some(token@),
            Err(_) => rs256_compact(
                token_type@,
                issuer@,
                issued_at as int,
                expires_at as int,
                private_key_pem@,
            ) is None,
        },
{
    let mut header = JwsHeader::new();
    header.set_token_type(token_type);
    let mut payload = JwtPayload::new();
    payload.set_issued_at(&(SystemTime::UNIX_EPOCH + Duration::from_secs(issued_at)));
    payload.set_expires_at(&(SystemTime::UNIX_EPOCH + Duration::from_secs(expires_at)));
    payload.set_issuer(issuer);
    let signer = RS256.signer_from_pem(private_key_pem)?;
    encode_with_signer(&payload, &header, &signer)
}

/// The message of a josekit error, through its `Display`. Nothing is claimed
/// of the text.
#[verifier::external_body]
fn jose_error_text(error: &JoseError) -> (text: String) {
    error.to_string()
}

/// Reads the clock through `time::OffsetDateTime::now_utc` and gives the
/// time in nanoseconds since the epoch. Nothing is claimed of the value.
#[verifier::external_body]
fn unix_nanos_now() -> (nanos: i128) {
    OffsetDateTime::now_utc().unix_timestamp_nanos()
}

/// Why no assertion could be made.
#[derive(Debug)]
pub enum CredentialError {
    /// The clock shows a time for which no assertion can be made.
    Clock,
    /// The private key cannot be used for signing; the text says why.
    Signing(String),
}

/// Computes the issue time and the expiry of an assertion made at `now`.
pub fn assertion_window(now: u64) -> (window: Option<(u64, u64)>)
    ensures
        window is Some <==> can_assert_at(now as int),
        window matches Some(w) ==> w.0 == issued_at_for(now as int) && w.1 == expires_at_for(
            now as int,
        ),
{
    if now < CLOCK_SKEW_SECS || now > MAX_CLAIM_TIME {
        return None;
    }
    let issued_at: u64 = now - CLOCK_SKEW_SECS;
    let expires_at: u64 = issued_at + ASSERTION_LIFETIME_SECS;
    if expires_at > MAX_CLAIM_TIME {
        None
    } else {
        Some((issued_at, expires_at))
    }
}

/// An assertion never outlives the platform's cap: from the moment it is
/// made to its expiry pass eight minutes, and its issue time lies ten
/// seconds in the past.
pub proof fn lemma_assertion_within_cap(now: int)
    ensures
        expires_at_for(now) - now == 480,
        expires_at_for(now) - now < PLATFORM_LIFETIME_CAP_SECS,
        now - issued_at_for(now) == 10,
        expires_at_for(now) - issued_at_for(now) == ASSERTION_LIFETIME_SECS,
{
}

/// The whole seconds of a time in nanoseconds since the epoch.
pub fn seconds_of(nanos: i128) -> (seconds: Option<u64>)
    ensures
        match seconds {
            Some(s) => whole_seconds(nanos as int) == Some(s as int),
            None => whole_seconds(nanos as int) is None,
        },
{
    if nanos < 0 {
        return None;
    }
    let seconds: i128 = nanos / NANOS_PER_SECOND;
    if seconds > MAX_CLAIM_TIME as i128 {
        None
    } else {
        Some(seconds as u64)
    }
}

/// The assertion of the application `client_id` made at `now`, or the
/// reason why there is none.
pub open spec fn assertion_at(client_id: Seq<char>, private_key: Seq<char>, now: int) -> Option<
    Seq<char>,
> {
    if can_assert_at(now) {
        rs256_compact("JWT"@, client_id, issued_at_for(now), expires_at_for(now), private_key)
    } else {
        None
    }
}

/// Makes the assertion of the application `client_id` at the time `now`
/// (seconds since the epoch): a token of type `JWT` that names the
/// application as issuer, was issued ten seconds before `now`, expires 490
/// seconds after that, and is signed with `private_key` (PEM) by RS256.
pub fn make_jwt_at(client_id: &str, private_key: &str, now: u64) -> (minted: Result<
    String,
    CredentialError,
>)
    ensures
        match minted {
            Ok(token) => assertion_at(client_id@, private_key@, now as int) == Some(token@),
            Err(CredentialError::Clock) => !can_assert_at(now as int),
            Err(CredentialError::Signing(_)) => can_assert_at(now as int) && assertion_at(
                client_id@,
                private_key@,
                now as int,
            ) is None,
        },
{
    match assertion_window(now) {
        None => Err(CredentialError::Clock),
        Some((issued_at, expires_at)) => {
            match sign_rs256("JWT", client_id, issued_at, expires_at, private_key) {
                Ok(token) => Ok(token),
                Err(error) => Err(CredentialError::Signing(jose_error_text(&error))),
            }
        },
    }
}

/// Whether `minted` is what making the assertion of the application
/// `client_id` gives at the instant `nanos` (nanoseconds since the epoch).
/// The assertion is made for the whole seconds of the instant. Where the
/// instant lies before the epoch or so late that no assertion can be made
/// for it, the result is the error `Clock`; where the key does not sign, it
/// is the error `Signing`; otherwise it is the assertion.
pub open spec fn minted_at(
    minted: Result<String, CredentialError>,
    client_id: Seq<char>,
    private_key: Seq<char>,
    nanos: int,
) -> bool {
    match whole_seconds(nanos) {
        None => minted matches Err(CredentialError::Clock),
        Some(now) => match minted {
            Ok(token) => assertion_at(client_id, private_key, now) == Some(token@),
            Err(CredentialError::Clock) => !can_assert_at(now),
            Err(CredentialError::Signing(_)) => can_assert_at(now) && assertion_at(
                client_id,
                private_key,
                now,
            ) is None,
        },
    }
}

/// Makes the assertion of the application `client_id` at the instant
/// `nanos`, given in nanoseconds since the epoch as a clock shows it.
pub fn make_jwt_at_instant(client_id: &str, private_key: &str, nanos: i128) -> (minted: Result<
    String,
    CredentialError,
>)
    ensures
        minted_at(minted, client_id@, private_key@, nanos as int),
{
    match seconds_of(nanos) {
        None => Err(CredentialError::Clock),
        Some(now) => make_jwt_at(client_id, private_key, now),
    }
}

/// Makes the assertion of the application `client_id` at the instant that
/// the clock shows. Whatever the clock shows, the result is that of
/// `make_jwt_at_instant` for that instant: the assertion of the whole seconds
/// of the instant, or the reason why there is none.
pub fn make_jwt_now(client_id: &str, private_key: &str) -> (minted: Result<String, CredentialError>)
    ensures
        exists|nanos: int|
            i128::MIN <= nanos <= i128::MAX && #[trigger] minted_at(
                minted,
                client_id@,
                private_key@,
                nanos,
            ),
        minted matches Ok(token) ==> exists|now: int|
            assertion_at(client_id@, private_key@, now) == Some(token@),
{
    let nanos = unix_nanos_now();
    let minted = make_jwt_at_instant(client_id, private_key, nanos);
    proof {
        assert(minted_at(minted, client_id@, private_key@, nanos as int));
        if minted is Ok {
            let now = whole_seconds(nanos as int)->0;
            assert(assertion_at(client_id@, private_key@, now) == Some(minted->Ok_0@));
        }
    }
    minted
}

} // verus!
