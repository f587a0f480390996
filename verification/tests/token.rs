use doubleblind_science::assertion::CredentialError;
use doubleblind_science::text::{join2, join3, render_signed, render_unsigned};
use doubleblind_science::token::{
    access_token_request, find_member, token_url, ResponseAccessTokens, TokenError, TokenReply,
    TokenService,
};

fn answer(status: u16, body: &str) -> TokenReply {
    TokenReply::Answer { status, body: body.to_string() }
}

#[test]
fn numbers_are_written_in_decimal() {
    assert_eq!(render_unsigned(0), "0");
    assert_eq!(render_unsigned(7), "7");
    assert_eq!(render_unsigned(10), "10");
    assert_eq!(render_unsigned(1234567890), "1234567890");
    assert_eq!(render_unsigned(u64::MAX), "18446744073709551615");
    assert_eq!(render_signed(0), "0");
    assert_eq!(render_signed(42), "42");
    assert_eq!(render_signed(-42), "-42");
    assert_eq!(render_signed(i64::MAX), "9223372036854775807");
    assert_eq!(render_signed(i64::MIN), "-9223372036854775808");
}

#[test]
fn texts_are_joined_in_order() {
    assert_eq!(join2("ab", "cd"), "abcd");
    assert_eq!(join2("", ""), "");
    assert_eq!(join3("a", "-", "b"), "a-b");
}

#[test]
fn token_address_names_the_installation() {
    assert_eq!(token_url(42), "https://api.github.com/app/installations/42/access_tokens");
    assert_eq!(
        token_url(43210987),
        "https://api.github.com/app/installations/43210987/access_tokens"
    );
    assert_eq!(token_url(-1), "https://api.github.com/app/installations/-1/access_tokens");
}

#[test]
fn request_asks_for_hooks_and_contents() {
    let repositories = vec!["zia".to_string(), "site".to_string()];
    let request = access_token_request(42, repositories, "signed.assertion.text".to_string());
    assert_eq!(request.url, "https://api.github.com/app/installations/42/access_tokens");
    assert_eq!(request.bearer, "signed.assertion.text");
    assert_eq!(request.repositories, vec!["zia".to_string(), "site".to_string()]);
    let headers: Vec<(&str, &str)> =
        request.headers.iter().map(|h| (h.name.as_str(), h.value.as_str())).collect();
    assert_eq!(
        headers,
        vec![
            ("Accept", "application/vnd.github+json"),
            ("X-GitHub-Api-Version", "2022-11-28"),
            ("User-Agent", "doubleblind-science"),
        ]
    );
    let permissions: Vec<(&str, &str)> =
        request.permissions.iter().map(|p| (p.scope.as_str(), p.access.as_str())).collect();
    assert_eq!(permissions, vec![("repository_hooks", "write"), ("contents", "read")]);
}

#[test]
fn token_exchange_reads_token_and_expiry() {
    let reply = answer(200, r#"{"token":"abc","expires_at":"2030-01-01T00:00:00Z"}"#);
    let tokens = TokenService::read_reply(reply).expect("a well-formed answer was refused");
    assert_eq!(tokens.token, "abc");
    assert_eq!(tokens.expires_at, 1_893_456_000 * 1_000_000_000);
    let instant = time::OffsetDateTime::from_unix_timestamp_nanos(tokens.expires_at).unwrap();
    assert_eq!(instant.year(), 2030);
    assert_eq!(instant.ordinal(), 1);
    assert_eq!((instant.hour(), instant.minute(), instant.second()), (0, 0, 0));
}

#[test]
fn expiry_keeps_offset_and_fraction() {
    let reply = answer(201, r#"{"token":"t","expires_at":"1970-01-01T01:00:00.5+01:00"}"#);
    let tokens = TokenService::read_reply(reply).unwrap();
    assert_eq!(tokens.expires_at, 500_000_000);
    let reply = answer(200, r#"{"token":"t","expires_at":"1969-12-31T23:59:59Z"}"#);
    assert_eq!(TokenService::read_reply(reply).unwrap().expires_at, -1_000_000_000);
}

#[test]
fn extra_members_are_ignored() {
    let body = r#"{"token":"abc","expires_at":"2030-01-01T00:00:00Z","permissions":{"contents":"read"},"repository_selection":"selected"}"#;
    let tokens = TokenService::read_reply(answer(200, body)).unwrap();
    assert_eq!(tokens.token, "abc");
    assert_eq!(tokens.expires_at, 1_893_456_000 * 1_000_000_000);
}

#[test]
fn refusal_carries_status_and_body() {
    let body = r#"{"message":"Bad credentials"}"#;
    match TokenService::read_reply(answer(401, body)) {
        Err(TokenError::Refused { status, body: text }) => {
            assert_eq!(status, 401);
            assert_eq!(text, body);
        }
        _ => panic!("a refusal was not reported as one"),
    }
    let well_formed = r#"{"token":"abc","expires_at":"2030-01-01T00:00:00Z"}"#;
    for status in [199u16, 300, 404, 422, 500] {
        assert!(matches!(
            TokenService::read_reply(answer(status, well_formed)),
            Err(TokenError::Refused { .. })
        ));
    }
}

#[test]
fn answers_without_token_or_expiry_are_malformed() {
    let bodies = [
        r#"{"expires_at":"2030-01-01T00:00:00Z"}"#,
        r#"{"token":"abc"}"#,
        r#"{"token":7,"expires_at":"2030-01-01T00:00:00Z"}"#,
        r#"{"token":"abc","expires_at":1893456000}"#,
        r#"{"token":"abc","expires_at":"tomorrow"}"#,
        r#"{"token":"abc","expires_at":"2030-01-01T00:00:00"}"#,
        r#"{"token":"abc","expires_at":""}"#,
        r#"{"token":null,"expires_at":"2030-01-01T00:00:00Z"}"#,
        r#"{"token":"abc","expires_at":"2030-01-01T00:00:00Z"} trailing"#,
        r#"{"token":"abc","expires_at":"2030-01-01T00:00:00Z""#,
        r#"["abc","2030-01-01T00:00:00Z"]"#,
        r#""abc""#,
        "null",
        "not json",
        "",
    ];
    for body in bodies.iter() {
        assert!(matches!(
            TokenService::read_reply(answer(200, body)),
            Err(TokenError::Malformed)
        ));
    }
}

#[test]
fn of_members_with_one_name_the_last_counts() {
    let body = r#"{"token":"first","expires_at":"2030-01-01T00:00:00Z","token":"last"}"#;
    assert_eq!(TokenService::read_reply(answer(200, body)).unwrap().token, "last");
}

#[test]
fn body_is_read_only_when_the_status_reports_success() {
    match TokenService::read_reply(answer(403, "not json")) {
        Err(TokenError::Refused { status, body }) => {
            assert_eq!(status, 403);
            assert_eq!(body, "not json");
        }
        _ => panic!("a refusal was not reported as one"),
    }
}

#[test]
fn members_are_found_by_name() {
    let list = vec![
        ("a".to_string(), Some("1".to_string())),
        ("b".to_string(), None),
        ("c".to_string(), Some("3".to_string())),
    ];
    assert_eq!(find_member(&list, "a"), Some("1".to_string()));
    assert_eq!(find_member(&list, "b"), None);
    assert_eq!(find_member(&list, "c"), Some("3".to_string()));
    assert_eq!(find_member(&list, "d"), None);
    assert_eq!(find_member(&vec![], "a"), None);
}

#[test]
fn unreachable_platform_is_a_transport_failure() {
    assert!(matches!(TokenService::read_reply(TokenReply::Unreachable), Err(TokenError::Transport)));
    assert!(TokenError::Transport.is_retryable());
    assert!(!TokenError::Malformed.is_retryable());
    assert!(!TokenError::Refused { status: 500, body: String::new() }.is_retryable());
    assert!(!TokenError::Credential(CredentialError::Clock).is_retryable());
}

#[test]
fn assemble_takes_the_instant_as_given() {
    let tokens =
        ResponseAccessTokens::assemble(200, String::new(), Some("abc".to_string()), Some(17))
            .unwrap();
    assert_eq!(tokens.token, "abc");
    assert_eq!(tokens.expires_at, 17);
    assert!(matches!(
        ResponseAccessTokens::assemble(200, String::new(), Some("abc".to_string()), None),
        Err(TokenError::Malformed)
    ));
    assert!(matches!(
        ResponseAccessTokens::assemble(200, String::new(), None, Some(17)),
        Err(TokenError::Malformed)
    ));
    match ResponseAccessTokens::assemble(500, "down".to_string(), Some("abc".to_string()), Some(17))
    {
        Err(TokenError::Refused { status, body }) => {
            assert_eq!(status, 500);
            assert_eq!(body, "down");
        }
        _ => panic!("a refusal was not reported as one"),
    }
}

#[test]
fn token_exchange_without_usable_key_reports_the_credential() {
    let service = TokenService::new("Iv1.client".to_string(), "no key at all".to_string());
    assert_eq!(service.client_id(), "Iv1.client");
    match service.token_exchange(42, vec!["zia".to_string()]) {
        Err(TokenError::Credential(CredentialError::Signing(_))) => {}
        _ => panic!("a malformed key was not reported"),
    }
}

#[test]
fn token_exchange_signs_a_fresh_assertion() {
    let pair = josekit::jwk::alg::rsa::RsaKeyPair::generate(2048).unwrap();
    let private_pem = String::from_utf8(pair.to_traditional_pem_private_key()).unwrap();
    let service = TokenService::new("Iv1.client".to_string(), private_pem);
    let copy = service.clone();
    let request = copy.token_exchange(7, vec!["zia".to_string()]).unwrap();
    assert_eq!(request.url, "https://api.github.com/app/installations/7/access_tokens");
    assert_eq!(request.repositories, vec!["zia".to_string()]);
    let verifier =
        josekit::jws::RS256.verifier_from_pem(pair.to_traditional_pem_public_key()).unwrap();
    let (payload, _) = josekit::jwt::decode_with_verifier(&request.bearer, &verifier).unwrap();
    assert_eq!(payload.issuer(), Some("Iv1.client"));
}
