use doubleblind_science::credential::{
    expiry_after, token_plan, InstallationCredential, TokenPlan, UserTokens,
    DEFAULT_TOKEN_LIFETIME_SECS,
};
use doubleblind_science::hooks::{
    branch_ref, find_branch_head, push_decision, push_status, GitReference, PendingInstallations,
    PushDecision,
};
use doubleblind_science::records::{
    copy_optional, frontend_repositories, repository_names, GithubRepoEdit, GithubUserInfo,
    RepositoryRecord,
};
use doubleblind_science::signature::{check_signature, SignatureVerdict};
use doubleblind_science::token::ResponseAccessTokens;
use hmac::{Hmac, Mac};
use sha2::Sha256;

fn record(deployed: bool, domain: Option<&str>, branch: Option<&str>) -> RepositoryRecord {
    RepositoryRecord {
        github_id: 99,
        github_short_name: "zia".to_string(),
        github_full_name: "MarcelCoding/zia".to_string(),
        deployed,
        domain: domain.map(|d| d.to_string()),
        branch: branch.map(|b| b.to_string()),
    }
}

fn reference(name: &str, sha: &str) -> GitReference {
    GitReference { name: name.to_string(), sha: sha.to_string() }
}

fn signature_of(secret: &[u8], body: &[u8]) -> Vec<u8> {
    let mut mac = Hmac::<Sha256>::new_from_slice(secret).unwrap();
    mac.update(body);
    let code = mac.finalize().into_bytes();
    format!("sha256={}", hex::encode(code)).into_bytes()
}

fn tokens(access: i128, refresh: i128) -> UserTokens {
    UserTokens {
        access_token: Some("access".to_string()),
        access_token_expire: Some(access),
        refresh_token: Some("refresh".to_string()),
        refresh_token_expire: Some(refresh),
    }
}

#[test]
fn branch_reference_has_the_heads_prefix() {
    assert_eq!(branch_ref("main"), "refs/heads/main");
    assert_eq!(branch_ref("feature/x"), "refs/heads/feature/x");
    assert_eq!(branch_ref(""), "refs/heads/");
}

#[test]
fn push_to_the_deployed_branch_is_deployed() {
    let repository = record(true, Some("zia"), Some("main"));
    match push_decision(&repository, "refs/heads/main") {
        PushDecision::Deploy { domain } => assert_eq!(domain, "zia"),
        _ => panic!("the push was not deployed"),
    }
    assert_eq!(push_status(&push_decision(&repository, "refs/heads/main")), 200);
}

#[test]
fn push_to_another_branch_is_left_alone() {
    let repository = record(true, Some("zia"), Some("main"));
    for pushed in ["refs/heads/dev", "refs/tags/main", "main", "refs/heads/main2", ""] {
        let decision = push_decision(&repository, pushed);
        assert!(matches!(decision, PushDecision::OtherBranch));
        assert_eq!(push_status(&decision), 204);
    }
}

#[test]
fn push_to_a_repository_that_is_not_deployed_is_refused() {
    let decision = push_decision(&record(false, Some("zia"), Some("main")), "refs/heads/main");
    assert!(matches!(decision, PushDecision::NotDeployed));
    assert_eq!(push_status(&decision), 400);
    let decision = push_decision(&record(false, None, None), "refs/heads/main");
    assert!(matches!(decision, PushDecision::NotDeployed));
}

#[test]
fn push_without_site_or_branch_on_record_fails() {
    for repository in [
        record(true, None, Some("main")),
        record(true, Some("zia"), None),
        record(true, None, None),
    ] {
        let decision = push_decision(&repository, "refs/heads/main");
        assert!(matches!(decision, PushDecision::Incomplete));
        assert_eq!(push_status(&decision), 500);
    }
}

#[test]
fn branch_head_is_the_first_match() {
    let references = vec![
        reference("refs/heads/dev", "111"),
        reference("refs/heads/main", "222"),
        reference("refs/tags/main", "333"),
        reference("refs/heads/main", "444"),
    ];
    assert_eq!(find_branch_head(&references, "main"), Some("222".to_string()));
    assert_eq!(find_branch_head(&references, "dev"), Some("111".to_string()));
    assert_eq!(find_branch_head(&references, "release"), None);
    assert_eq!(find_branch_head(&vec![], "main"), None);
}

#[test]
fn pending_installations_are_noted_and_cleared() {
    let mut pending = PendingInstallations::new();
    assert!(!pending.is_pending(1));
    pending.begin(1);
    pending.begin(2);
    pending.begin(1);
    assert!(pending.is_pending(1));
    assert!(pending.is_pending(2));
    assert!(!pending.is_pending(3));
    pending.finish(1);
    assert!(!pending.is_pending(1));
    assert!(pending.is_pending(2));
    pending.finish(3);
    assert!(pending.is_pending(2));
    pending.finish(2);
    assert!(!pending.is_pending(2));
}

#[test]
fn shown_repositories_keep_order_and_fields() {
    let records = vec![record(true, Some("zia"), Some("main")), record(false, None, None)];
    let shown = frontend_repositories(&records);
    assert_eq!(shown.len(), 2);
    assert_eq!(shown[0].id, 99);
    assert_eq!(shown[0].short_name, "zia");
    assert_eq!(shown[0].full_name, "MarcelCoding/zia");
    assert!(shown[0].deployed);
    assert_eq!(shown[0].domain, Some("zia".to_string()));
    assert_eq!(shown[0].branch, Some("main".to_string()));
    assert!(!shown[1].deployed);
    assert_eq!(shown[1].domain, None);
    assert_eq!(shown[1].branch, None);
    assert_eq!(repository_names(&records), vec!["zia".to_string(), "zia".to_string()]);
    assert!(frontend_repositories(&vec![]).is_empty());
    assert_eq!(copy_optional(&Some("a".to_string())), Some("a".to_string()));
    assert_eq!(copy_optional(&None), None);
}

#[test]
fn repository_edits_compare_by_their_fields() {
    let a = GithubRepoEdit { id: 1, name: "zia".to_string(), full_name: "o/zia".to_string() };
    let b = a.clone();
    let c = GithubRepoEdit { id: 2, name: "zia".to_string(), full_name: "o/zia".to_string() };
    assert_eq!(a, b);
    assert_ne!(a, c);
    assert_eq!(GithubUserInfo { id: 5 }, GithubUserInfo { id: 5 });
}

#[test]
fn signature_of_the_body_is_authentic() {
    let secret = b"It's a Secret to Everybody";
    let body = b"Hello, World!";
    let header = signature_of(secret, body);
    assert_eq!(check_signature(secret, body, Some(&header)), SignatureVerdict::Authentic);
    let known =
        b"sha256=757107ea0eb2509fc211221cce984b8a37570b6d7586c22c46f4379c8b043e17".to_vec();
    assert_eq!(check_signature(secret, body, Some(&known)), SignatureVerdict::Authentic);
    let upper: Vec<u8> = known.iter().map(|b| if *b > b'9' && *b != b'=' && *b != b's' && *b != b'h' { b.to_ascii_uppercase() } else { *b }).collect();
    assert_eq!(check_signature(secret, body, Some(&upper)), SignatureVerdict::Authentic);
}

#[test]
fn signature_of_another_body_or_secret_is_forged() {
    let secret = b"It's a Secret to Everybody";
    let header = signature_of(secret, b"Hello, World!");
    assert_eq!(check_signature(secret, b"Hello, World?", Some(&header)), SignatureVerdict::Forged);
    assert_eq!(check_signature(b"other", b"Hello, World!", Some(&header)), SignatureVerdict::Forged);
    let short = b"sha256=7571".to_vec();
    assert_eq!(check_signature(secret, b"Hello, World!", Some(&short)), SignatureVerdict::Forged);
    let empty = b"sha256=".to_vec();
    assert_eq!(check_signature(secret, b"Hello, World!", Some(&empty)), SignatureVerdict::Forged);
}

#[test]
fn signature_that_is_no_hexadecimal_text_is_malformed() {
    let secret = b"secret";
    for header in ["sha256=xyz0", "sha256=abc", "sha25", "", "sha256=75 71"] {
        assert_eq!(
            check_signature(secret, b"body", Some(header.as_bytes())),
            SignatureVerdict::Malformed
        );
    }
}

#[test]
fn delivery_without_signature_is_reported() {
    assert_eq!(check_signature(b"secret", b"body", None), SignatureVerdict::Missing);
}

#[test]
fn credential_is_usable_up_to_its_expiry() {
    let granted = ResponseAccessTokens { token: "ghs_abc".to_string(), expires_at: 1_000 };
    let credential = InstallationCredential::from_response(42, granted);
    assert_eq!(credential.installation_id, 42);
    assert_eq!(credential.access_token, "ghs_abc");
    assert_eq!(credential.expires_at, 1_000);
    assert!(credential.is_usable_at(999));
    assert!(credential.is_usable_at(1_000));
    assert!(!credential.is_usable_at(1_001));
}

#[test]
fn stored_token_is_used_until_it_expires() {
    match token_plan(Some(&tokens(100, 200)), 100) {
        TokenPlan::Use { access_token } => assert_eq!(access_token, "access"),
        _ => panic!("a valid token was not used"),
    }
    assert!(matches!(token_plan(Some(&tokens(100, 200)), 0), TokenPlan::Use { .. }));
}

#[test]
fn expired_token_is_exchanged_while_the_refresh_token_lasts() {
    match token_plan(Some(&tokens(100, 200)), 101) {
        TokenPlan::Exchange { refresh_token } => assert_eq!(refresh_token, "refresh"),
        _ => panic!("an expired token was not exchanged"),
    }
    assert!(matches!(token_plan(Some(&tokens(100, 200)), 200), TokenPlan::Exchange { .. }));
    assert!(matches!(token_plan(Some(&tokens(100, 200)), 201), TokenPlan::Unavailable));
}

#[test]
fn missing_user_or_token_gives_no_plan() {
    assert!(matches!(token_plan(None, 0), TokenPlan::Unavailable));
    let mut incomplete = tokens(100, 200);
    incomplete.refresh_token = None;
    assert!(matches!(token_plan(Some(&incomplete), 0), TokenPlan::Unavailable));
    let mut incomplete = tokens(100, 200);
    incomplete.access_token_expire = None;
    assert!(matches!(token_plan(Some(&incomplete), 0), TokenPlan::Unavailable));
}

#[test]
fn expiry_defaults_to_ten_minutes() {
    assert_eq!(DEFAULT_TOKEN_LIFETIME_SECS, 600);
    assert_eq!(expiry_after(0, None), Some(600_000_000_000));
    assert_eq!(expiry_after(5, Some(1)), Some(1_000_000_005));
    assert_eq!(expiry_after(-1_000_000_000, Some(0)), Some(-1_000_000_000));
    assert_eq!(
        expiry_after(1_700_000_000_000_000_000, Some(28_800)),
        Some(1_700_028_800_000_000_000)
    );
    assert_eq!(expiry_after(i128::MAX, None), None);
    assert_eq!(expiry_after(i128::MAX, Some(0)), Some(i128::MAX));
}
