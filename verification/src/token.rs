//! The token service: the exchange of a signed assertion for an installation
//! access token that is limited to named repositories. The library says what
//! is to be sent and what an answer means; sending is left to the caller.

use crate::assertion::{assertion_at, make_jwt_now, minted_at, CredentialError};
use crate::records::optional_text;
use crate::status::{is_success, reports_success};
use crate::text::{decimal_text, join3, render_signed};
use serde_json::Value;
use time::format_description::well_known::Iso8601;
use time::OffsetDateTime;
use vstd::prelude::*;
use vstd::string::*;

verus! {

/// The instant that the `time` crate reads from a text in the ISO 8601
/// format, in nanoseconds since the epoch; `None` where it does not accept
/// the text as a date with a time and an offset.
pub uninterp spec fn iso8601_unix_nanos(text: Seq<char>) -> Option<int>;

/// Calls `time::OffsetDateTime::parse` with the well-known format `Iso8601`
/// and gives the instant as nanoseconds since the epoch. Parsing depends on
/// the text alone: the contract gives its result the name
/// `iso8601_unix_nanos` and claims nothing more.
#[verifier::external_body]
fn parse_iso8601(text: &str) -> (instant: Option<i128>)
    ensures
        match instant {
            Some(nanos) => iso8601_unix_nanos(text@) == Some(nanos as int),
            None => iso8601_unix_nanos(text@) is None,
        },
{
    OffsetDateTime::parse(text, &Iso8601::DEFAULT).ok().map(|t| t.unix_timestamp_nanos())
}

/// The members of the JSON object that `serde_json` reads from a text: for
/// each name the text of the member where it is a string, and `None` where it
/// is of another kind; of members with one name the last counts. There is no
/// such map where `serde_json` does not accept the text as one JSON object.
pub uninterp spec fn json_text_members(body: Seq<char>) -> Option<
    Map<Seq<char>, Option<Seq<char>>>,
>;

/// Whether a list holds exactly the members of a map, each name once.
pub open spec fn lists_members(
    list: Seq<(String, Option<String>)>,
    members: Map<Seq<char>, Option<Seq<char>>>,
) -> bool {
    &&& forall|i: int|
        0 <= i < list.len() ==> members.contains_key((#[trigger] list[i]).0@) && members[list[i].0@]
            == optional_text(list[i].1)
    &&& forall|name: Seq<char>| #[trigger]
        members.contains_key(name) ==> exists|i: int|
            0 <= i < list.len() && (#[trigger] list[i]).0@ == name
    &&& forall|i: int, j: int|
        0 <= i < j < list.len() ==> (#[trigger] list[i]).0@ != (#[trigger] list[j]).0@
}

/// Calls `serde_json::from_str` for a map of members, which accepts a text
/// that is one JSON object and keeps, of members with the same name, the
/// last. Each member is handed out once, with its text where it is a
/// string. What is read depends on the text alone: the contract gives it the
/// name `json_text_members`.
#[verifier::external_body]
fn read_json_object(body: &str) -> (members: Option<Vec<(String, Option<String>)>>)
    ensures
        match members {
            Some(list) => json_text_members(body@) matches Some(map) && lists_members(list@, map),
            None => json_text_members(body@) is None,
        },
{
    let object: serde_json::Map<String, Value> = serde_json::from_str(body).ok()?;
    Some(
        object.into_iter().map(
            |(name, member)|
                match member {
                    Value::String(text) => (name, Some(text)),
                    Value::Null | Value::Bool(_) | Value::Number(_) => (name, None),
                    Value::Array(_) | Value::Object(_) => (name, None),
                },
        ).collect(),
    )
}

/// The identity of the application towards the platform.
#[derive(Clone)]
pub struct TokenService {
    client_id: String,
    secret: String,
}

/// A permission that a token is asked to carry.
pub struct Permission {
    /// What the permission is about.
    pub scope: String,
    /// The level of access.
    pub access: String,
}

/// A header of a request.
pub struct Header {
    pub name: String,
    pub value: String,
}

/// The request for an installation access token: a POST to `url`, with
/// `bearer` as the bearer credential and the given headers, whose body is the
/// JSON object with the members `repositories` (the names, as an array) and
/// `permissions` (an object with one member for each permission).
pub struct AccessTokenRequest {
    pub url: String,
    pub bearer: String,
    pub headers: Vec<Header>,
    pub repositories: Vec<String>,
    pub permissions: Vec<Permission>,
}

/// An installation access token and the instant at which it expires, in
/// nanoseconds since the epoch.
#[derive(Debug)]
pub struct ResponseAccessTokens {
    pub token: String,
    pub expires_at: i128,
}

/// What came of the request for a token.
pub enum TokenReply {
    /// No answer: the request could not be sent or the answer not read.
    Unreachable,
    /// An answer with its status and body.
    Answer { status: u16, body: String },
}

/// Why no token was obtained.
#[derive(Debug)]
pub enum TokenError {
    /// No assertion could be made.
    Credential(CredentialError),
    /// The platform was not reached; the caller may try again.
    Transport,
    /// The platform refused: its status and the body of its answer.
    Refused { status: u16, body: String },
    /// The answer reports success but is not a token with its expiry.
    Malformed,
}

impl TokenError {
    /// Whether the caller may try the exchange again as it is: only where
    /// the platform was not reached. A refusal or a malformed answer is not
    /// mended by asking again, and neither is a key that does not sign.
    pub fn is_retryable(&self) -> (retryable: bool)
        ensures
            retryable == (*self is Transport),
    {
        match self {
            TokenError::Transport => true,
            _ => false,
        }
    }
}

/// The address at which tokens of an installation are requested.
pub open spec fn token_url_text(installation_id: int) -> Seq<char> {
    "https://api.github.com/app/installations/"@ + decimal_text(installation_id)
        + "/access_tokens"@
}

/// The headers of a request for a token, as pairs of name and value.
pub open spec fn token_headers_text() -> Seq<(Seq<char>, Seq<char>)> {
    seq![
        ("Accept"@, "application/vnd.github+json"@),
        ("X-GitHub-Api-Version"@, "2022-11-28"@),
        ("User-Agent"@, "doubleblind-science"@),
    ]
}

/// The permissions that a token is asked to carry, as pairs of scope and
/// access: to write repository hooks and to read contents.
pub open spec fn token_permissions_text() -> Seq<(Seq<char>, Seq<char>)> {
    seq![("repository_hooks"@, "write"@), ("contents"@, "read"@)]
}

/// The names and values of headers.
pub open spec fn headers_view(headers: Seq<Header>) -> Seq<(Seq<char>, Seq<char>)> {
    headers.map_values(|header: Header| (header.name@, header.value@))
}

/// The scopes and access levels of permissions.
pub open spec fn permissions_view(permissions: Seq<Permission>) -> Seq<(Seq<char>, Seq<char>)> {
    permissions.map_values(|permission: Permission| (permission.scope@, permission.access@))
}

/// The texts of a list.
pub open spec fn texts_view(texts: Seq<String>) -> Seq<Seq<char>> {
    texts.map_values(|text: String| text@)
}

/// A request for a token, as plain values.
pub struct AccessTokenRequestView {
    pub url: Seq<char>,
    pub bearer: Seq<char>,
    pub headers: Seq<(Seq<char>, Seq<char>)>,
    pub repositories: Seq<Seq<char>>,
    pub permissions: Seq<(Seq<char>, Seq<char>)>,
}

impl View for AccessTokenRequest {
    type V = AccessTokenRequestView;

    open spec fn view(&self) -> AccessTokenRequestView {
        AccessTokenRequestView {
            url: self.url@,
            bearer: self.bearer@,
            headers: headers_view(self.headers@),
            repositories: texts_view(self.repositories@),
            permissions: permissions_view(self.permissions@),
        }
    }
}

/// The request for a token of `installation_id`, limited to `repositories`
/// and made under the assertion `assertion`.
pub open spec fn token_request(
    installation_id: int,
    repositories: Seq<Seq<char>>,
    assertion: Seq<char>,
) -> AccessTokenRequestView {
    AccessTokenRequestView {
        url: token_url_text(installation_id),
        bearer: assertion,
        headers: token_headers_text(),
        repositories,
        permissions: token_permissions_text(),
    }
}

/// A header with the given name and value.
fn header(name: &str, value: &str) -> (header: Header)
    ensures
        header.name@ == name@,
        header.value@ == value@,
{
    Header { name: String::from_str(name), value: String::from_str(value) }
}

/// A permission with the given scope and access.
fn permission(scope: &str, access: &str) -> (permission: Permission)
    ensures
        permission.scope@ == scope@,
        permission.access@ == access@,
{
    Permission { scope: String::from_str(scope), access: String::from_str(access) }
}

/// The address at which tokens of an installation are requested.
pub fn token_url(installation_id: i64) -> (url: String)
    ensures
        url@ == token_url_text(installation_id as int),
{
    let id = render_signed(installation_id);
    join3("https://api.github.com/app/installations/", id.as_str(), "/access_tokens")
}

/// The request for a token of `installation_id`, limited to `repositories`
/// and made under the assertion `assertion`.
pub fn access_token_request(
    installation_id: i64,
    repositories: Vec<String>,
    assertion: String,
) -> (request: AccessTokenRequest)
    ensures
        request@ == token_request(installation_id as int, texts_view(repositories@), assertion@),
{
    let mut headers: Vec<Header> = Vec::new();
    headers.push(header("Accept", "application/vnd.github+json"));
    headers.push(header("X-GitHub-Api-Version", "2022-11-28"));
    headers.push(header("User-Agent", "doubleblind-science"));
    let mut permissions: Vec<Permission> = Vec::new();
    permissions.push(permission("repository_hooks", "write"));
    permissions.push(permission("contents", "read"));
    assert(headers_view(headers@) =~= token_headers_text());
    assert(permissions_view(permissions@) =~= token_permissions_text());
    AccessTokenRequest {
        url: token_url(installation_id),
        bearer: assertion,
        headers,
        repositories,
        permissions,
    }
}

/// What an answer means, given the instant that its `expires_at` member
/// names: an answer that reports success holds a token where both members
/// are there and the expiry is an instant; otherwise it is malformed. An
/// answer that reports no success is a refusal, whatever it holds.
pub open spec fn reply_meaning(
    status: u16,
    body: Seq<char>,
    token: Option<Seq<char>>,
    expires_at: Option<int>,
) -> Result<(Seq<char>, int), TokenFailure> {
    if !is_success(status) {
        Err(TokenFailure::Refused { status, body })
    } else {
        match (token, expires_at) {
            (Some(token), Some(instant)) => Ok((token, instant)),
            _ => Err(TokenFailure::Malformed),
        }
    }
}

/// Why an answer holds no token, as plain values.
pub enum TokenFailure {
    Transport,
    Refused { status: u16, body: Seq<char> },
    Malformed,
}

/// The failure that an error stands for, where it is none of making the
/// assertion.
pub open spec fn failure_view(error: TokenError) -> Option<TokenFailure> {
    match error {
        TokenError::Credential(_) => None,
        TokenError::Transport => Some(TokenFailure::Transport),
        TokenError::Refused { status, body } => Some(TokenFailure::Refused { status, body: body@ }),
        TokenError::Malformed => Some(TokenFailure::Malformed),
    }
}

impl ResponseAccessTokens {
    /// Reads an answer of the platform of which the expiry, if there is one,
    /// has been read as an instant already.
    pub fn assemble(
        status: u16,
        body: String,
        token: Option<String>,
        expires_at: Option<i128>,
    ) -> (read: Result<ResponseAccessTokens, TokenError>)
        ensures
            match read {
                Ok(tokens) => reply_meaning(
                    status,
                    body@,
                    match token {
                        Some(t) => Some(t@),
                        None => None,
                    },
                    match expires_at {
                        Some(i) => Some(i as int),
                        None => None,
                    },
                ) == Ok::<(Seq<char>, int), TokenFailure>((tokens.token@, tokens.expires_at as int)),
                Err(error) => failure_view(error) is Some && reply_meaning(
                    status,
                    body@,
                    match token {
                        Some(t) => Some(t@),
                        None => None,
                    },
                    match expires_at {
                        Some(i) => Some(i as int),
                        None => None,
                    },
                ) == Err::<(Seq<char>, int), TokenFailure>(failure_view(error)->0),
            },
    {
        if !reports_success(status) {
            return Err(TokenError::Refused { status, body });
        }
        match (token, expires_at) {
            (Some(token), Some(expires_at)) => Ok(ResponseAccessTokens { token, expires_at }),
            _ => Err(TokenError::Malformed),
        }
    }
}

/// The text of the member `name`, if there is such a member and it is a
/// string.
pub open spec fn member_text(members: Map<Seq<char>, Option<Seq<char>>>, name: Seq<char>) -> Option<
    Seq<char>,
> {
    if members.contains_key(name) {
        members[name]
    } else {
        None
    }
}

/// The instant that the member `expires_at` names, if the member is there
/// and names one.
pub open spec fn expiry_of(expires_at: Option<Seq<char>>) -> Option<int> {
    match expires_at {
        Some(text) => iso8601_unix_nanos(text),
        None => None,
    }
}

/// What the body of an answer holds as token and as expiry: the member
/// `token` and the instant that the member `expires_at` names. Members of
/// other names are passed over. A body that is no JSON object holds neither.
pub open spec fn body_fields(body: Seq<char>) -> (Option<Seq<char>>, Option<int>) {
    match json_text_members(body) {
        Some(members) => (
            member_text(members, "token"@),
            expiry_of(member_text(members, "expires_at"@)),
        ),
        None => (None, None),
    }
}

/// What a reply means.
pub open spec fn reply_result(reply: TokenReplyView) -> Result<(Seq<char>, int), TokenFailure> {
    match reply {
        TokenReplyView::Unreachable => Err(TokenFailure::Transport),
        TokenReplyView::Answer { status, body } => reply_meaning(
            status,
            body,
            body_fields(body).0,
            body_fields(body).1,
        ),
    }
}

/// A reply, as plain values.
pub enum TokenReplyView {
    Unreachable,
    Answer { status: u16, body: Seq<char> },
}

impl View for TokenReply {
    type V = TokenReplyView;

    open spec fn view(&self) -> TokenReplyView {
        match *self {
            TokenReply::Unreachable => TokenReplyView::Unreachable,
            TokenReply::Answer { status, body } => TokenReplyView::Answer { status, body: body@ },
        }
    }
}

/// Finds the text of the member `name` in the list of the members of an
/// object.
pub fn find_member(list: &Vec<(String, Option<String>)>, name: &str) -> (text: Option<String>)
    ensures
        forall|members: Map<Seq<char>, Option<Seq<char>>>|
            lists_members(list@, members) ==> optional_text(text) == #[trigger] member_text(
                members,
                name@,
            ),
{
    let wanted = String::from_str(name);
    let mut i: usize = 0;
    while i < list.len()
        invariant
            i <= list.len(),
            wanted@ == name@,
            forall|j: int| 0 <= j < i ==> (#[trigger] list@[j]).0@ != name@,
        decreases list.len() - i,
    {
        if list[i].0 == wanted {
            let found = match &list[i].1 {
                Some(text) => Some(text.clone()),
                None => None,
            };
            assert forall|members: Map<Seq<char>, Option<Seq<char>>>|
                lists_members(list@, members) implies optional_text(found) == #[trigger] member_text(
                members,
                name@,
            ) by {
                assert(members.contains_key(list@[i as int].0@));
            }
            return found;
        }
        i = i + 1;
    }
    assert forall|members: Map<Seq<char>, Option<Seq<char>>>|
        lists_members(list@, members) implies optional_text(None::<String>) == #[trigger] member_text(
        members,
        name@,
    ) by {
        if members.contains_key(name@) {
            let k = choose|k: int| 0 <= k < list@.len() && (#[trigger] list@[k]).0@ == name@;
            assert(list@[k].0@ != name@);
        }
    }
    None
}

impl TokenService {
    /// The identity of the application `client_id`, which signs with the
    /// private key `secret` (PEM).
    pub fn new(client_id: String, secret: String) -> (service: TokenService)
        ensures
            service.client_id_text() == client_id@,
            service.secret_text() == secret@,
    {
        TokenService { client_id, secret }
    }

    /// The identifier of the application.
    pub closed spec fn client_id_text(&self) -> Seq<char> {
        self.client_id@
    }

    /// The private key, as PEM text.
    pub closed spec fn secret_text(&self) -> Seq<char> {
        self.secret@
    }

    /// The identifier of the application.
    pub fn client_id(&self) -> (client_id: &String)
        ensures
            client_id@ == self.client_id_text(),
    {
        &self.client_id
    }

    /// Makes a fresh assertion of the application `client_id`, signed with
    /// `private_key`, at the instant that the clock shows. Whatever the
    /// clock shows, the result is what `minted_at` says for that instant: a
    /// token of type `JWT` that names the application as issuer, was issued
    /// ten seconds before the instant's whole second and expires 490 seconds
    /// after that; the error `Clock` where no assertion can be made for the
    /// instant; the error `Signing` where the key does not sign.
    pub fn make_jwt(client_id: String, private_key: String) -> (minted: Result<
        String,
        CredentialError,
    >)
        ensures
            exists|nanos: int|
                i128::MIN <= nanos <= i128::MAX && #[trigger] minted_at(
                    minted,
                    client_id@,
                    private_key@,
                    nanos,
                ),
            minted matches Ok(token) ==> exists|now: int|
                assertion_at(client_id@, private_key@, now) == Some(token@),
    {
        make_jwt_now(client_id.as_str(), private_key.as_str())
    }

    /// Prepares the request for a token of `installation_id` that is limited
    /// to `repositories`, under an assertion made for this request alone.
    pub fn token_exchange(&self, installation_id: i64, repositories: Vec<String>) -> (prepared:
        Result<AccessTokenRequest, TokenError>)
        ensures
            prepared matches Ok(request) ==> request@ == token_request(
                installation_id as int,
                texts_view(repositories@),
                request@.bearer,
            ),
            prepared matches Ok(request) ==> exists|now: int|
                assertion_at(self.client_id_text(), self.secret_text(), now) == Some(
                    request@.bearer,
                ),
            prepared matches Err(error) ==> error is Credential,
    {
        match make_jwt_now(self.client_id.as_str(), self.secret.as_str()) {
            Ok(assertion) => {
                let ghost made = assertion@;
                let request = access_token_request(installation_id, repositories, assertion);
                proof {
                    let now = choose|now: int|
                        assertion_at(self.client_id@, self.secret@, now) == Some(made);
                    assert(assertion_at(self.client_id_text(), self.secret_text(), now) == Some(
                        request@.bearer,
                    ));
                }
                Ok(request)
            },
            Err(error) => Err(TokenError::Credential(error)),
        }
    }

    /// Reads what came of a request for a token: the token and its expiry, or
    /// the reason why there is none.
    pub fn read_reply(reply: TokenReply) -> (read: Result<ResponseAccessTokens, TokenError>)
        ensures
            match read {
                Ok(tokens) => reply_result(reply@) == Ok::<(Seq<char>, int), TokenFailure>(
                    (tokens.token@, tokens.expires_at as int),
                ),
                Err(error) => failure_view(error) is Some && reply_result(reply@) == Err::<
                    (Seq<char>, int),
                    TokenFailure,
                >(failure_view(error)->0),
            },
    {
        match reply {
            TokenReply::Unreachable => Err(TokenError::Transport),
            TokenReply::Answer { status, body } => {
                if !reports_success(status) {
                    return ResponseAccessTokens::assemble(status, body, None, None);
                }
                match read_json_object(body.as_str()) {
                    Some(list) => {
                        let token = find_member(&list, "token");
                        let expires_at = match find_member(&list, "expires_at") {
                            Some(text) => parse_iso8601(text.as_str()),
                            None => None,
                        };
                        ResponseAccessTokens::assemble(status, body, token, expires_at)
                    },
                    None => ResponseAccessTokens::assemble(status, body, None, None),
                }
            },
        }
    }
}

} // verus!
