use kurou::auth::{parse_token, trim_slashes, Admission, AuthConfig};
use kurou::oauth::{
    authorize_get, html_escape, AuthorizeForm, AuthorizePage, AuthorizeQuery, AuthorizeReply, OAuthStore,
    TokenForm, TokenReply, CODE_LIFE,
};

const VERIFIER: &str = "dBjftJeZ4CVP-mB92K27uhbUJU1p1r_wW1gFWFOEjXk";
const CHALLENGE: &str = "E9Melhoa2OwvFrEMTJguCHaoeK1t8URWbuGJSstw-cM";

#[test]
fn auth_tokens_support_labels_and_bare_values() {
    let auth = AuthConfig::new(
        "https://kurou.example".to_string(),
        &vec!["koma:koma-token".to_string(), "guest-token".to_string(), "empty:".to_string()],
    );

    assert_eq!(auth.token_count(), 2);
    assert_eq!(auth.resolve("koma-token").as_deref(), Some("koma"));
    assert_eq!(auth.resolve("guest-token").as_deref(), Some("token-2"));
    assert_eq!(auth.resolve("nope"), None);
    assert_eq!(auth.token_for_label("koma").as_deref(), Some("koma-token"));
    assert_eq!(auth.default_token().as_deref(), Some("koma-token"));
    assert_eq!(auth.oauth_token(Some("token-2")).as_deref(), Some("guest-token"));
    assert_eq!(auth.oauth_token(Some("missing")), None);
    assert_eq!(auth.oauth_token(None).as_deref(), Some("koma-token"));
}

#[test]
fn public_base_url_is_trimmed_for_metadata() {
    let auth = AuthConfig::new("https://kurou.example/".to_string(), &Vec::new());
    let metadata = auth.protected_resource_metadata();
    assert_eq!(metadata.resource, "https://kurou.example");
    assert_eq!(metadata.bearer_methods_supported, vec!["header".to_owned()]);
}

#[test]
fn odd_token_entries_are_read_with_care() {
    assert!(parse_token(0, "   ").is_none());
    assert!(parse_token(0, "label:  ").is_none());
    let named = parse_token(4, " a : b:c ").unwrap();
    assert_eq!((named.label.as_str(), named.token.as_str()), ("a", "b:c"));
    let bare = parse_token(4, ":secret").unwrap();
    assert_eq!((bare.label.as_str(), bare.token.as_str()), ("token-5", "secret"));
    let worded = parse_token(1, "token:secret").unwrap();
    assert_eq!(worded.label, "token-2");
    assert_eq!(trim_slashes("https://x///"), "https://x");
    assert_eq!(trim_slashes("///"), "");
}

#[test]
fn the_door_opens_for_held_tokens_only() {
    let auth = AuthConfig::new("https://k/".to_string(), &vec!["koma:s3".to_string()]);
    assert!(auth.is_enabled());
    assert!(matches!(auth.greet(Some("Bearer  s3 ")), Admission::Admitted(who) if who.0 == "koma"));
    for header in [None, Some("s3"), Some("bearer s3"), Some("Bearer s4"), Some("Bearer ")] {
        match auth.greet(header) {
            Admission::Refused { www_authenticate } => assert_eq!(
                www_authenticate,
                "Bearer realm=\"kurou\", resource_metadata=\"https://k/.well-known/oauth-protected-resource\""
            ),
            Admission::Admitted(_) => panic!("{header:?} was let in"),
        }
    }
    assert!(!AuthConfig::new(String::new(), &vec![" ".to_string()]).is_enabled());
}

#[test]
fn escapes_hidden_form_values() {
    assert_eq!(html_escape(r#"<tag a="b">&"#), "&lt;tag a=&quot;b&quot;&gt;&amp;");
}

fn query(response_type: &str, method: &str) -> AuthorizeQuery {
    AuthorizeQuery {
        response_type: response_type.to_owned(),
        client_id: "c<1>".to_owned(),
        redirect_uri: "https://a/?x=\"1\"&y".to_owned(),
        code_challenge: "chal".to_owned(),
        code_challenge_method: method.to_owned(),
        state: None,
        scope: None,
    }
}

#[test]
fn the_page_carries_the_request_escaped() {
    match authorize_get(&query("code", "S256")) {
        AuthorizePage::Page { html } => {
            assert!(html.starts_with("<!DOCTYPE html>\n<html lang=\"en\">"));
            assert!(html.contains("* { box-sizing: border-box;"));
            assert!(html.contains("name=\"code_challenge\" value=\"chal\">"));
            assert!(html.contains("name=\"redirect_uri\" value=\"https://a/?x=&quot;1&quot;&amp;y\">"));
            assert!(html.contains("name=\"client_id\" value=\"c&lt;1&gt;\">"));
            assert!(html.contains("name=\"state\" value=\"\">"));
            assert!(html.ends_with("</html>"));
        }
        AuthorizePage::Unsupported { message } => panic!("{message}"),
    }
    for (kind, method) in [("token", "S256"), ("code", "plain")] {
        match authorize_get(&query(kind, method)) {
            AuthorizePage::Unsupported { message } => assert_eq!(message, "unsupported OAuth request"),
            AuthorizePage::Page { .. } => panic!("{kind} {method} got a page"),
        }
    }
}

fn form(redirect: &str, state: Option<&str>) -> AuthorizeForm {
    AuthorizeForm {
        code_challenge: CHALLENGE.to_owned(),
        redirect_uri: redirect.to_owned(),
        client_id: "c".to_owned(),
        state: state.map(str::to_owned),
    }
}

fn exchange(code: &str, verifier: &str, redirect: &str) -> TokenForm {
    TokenForm {
        grant_type: "authorization_code".to_owned(),
        code: code.to_owned(),
        code_verifier: verifier.to_owned(),
        redirect_uri: redirect.to_owned(),
        client_id: None,
    }
}

#[test]
fn a_code_is_good_once() {
    let mut store = OAuthStore::new("bearer".to_owned(), "https://k/".to_owned());
    let reply = store.authorize_with("c1".to_owned(), form("https://a/cb?x=1", Some("s t")), 0);
    match reply {
        AuthorizeReply::Redirect { location } => assert_eq!(location, "https://a/cb?x=1&code=c1&state=s+t"),
        AuthorizeReply::InvalidRedirect { message } => panic!("{message}"),
    }
    match store.token(&exchange("c1", VERIFIER, "https://a/cb?x=1"), 5) {
        TokenReply::Granted { access_token } => assert_eq!(access_token, "bearer"),
        other => panic!("{:?}", other.error()),
    }
    let again = store.token(&exchange("c1", VERIFIER, "https://a/cb?x=1"), 6);
    assert_eq!(again.error(), Some(("invalid_grant", None)));
}

#[test]
fn grants_are_earned() {
    let mut store = OAuthStore::new("bearer".to_owned(), "https://k".to_owned());
    let redirect = "https://a/cb";
    store.authorize_with("c1".to_owned(), form(redirect, None), 0);
    let wrong_proof = store.token(&exchange("c1", "other", redirect), 1);
    assert_eq!(wrong_proof.error(), Some(("invalid_grant", Some("pkce verification failed"))));
    store.authorize_with("c2".to_owned(), form(redirect, None), 0);
    let elsewhere = store.token(&exchange("c2", VERIFIER, "https://b/cb"), 1);
    assert_eq!(elsewhere.error(), Some(("invalid_grant", None)));
    let mut other_kind = exchange("c3", VERIFIER, redirect);
    other_kind.grant_type = "password".to_owned();
    store.authorize_with("c3".to_owned(), form(redirect, None), 0);
    assert_eq!(store.token(&other_kind, 1).error(), Some(("unsupported_grant_type", None)));
    assert!(matches!(store.token(&exchange("c3", VERIFIER, redirect), CODE_LIFE), TokenReply::Granted { .. }));
    store.authorize_with("c4".to_owned(), form(redirect, None), 0);
    assert!(matches!(store.token(&exchange("c4", VERIFIER, redirect), CODE_LIFE + 1), TokenReply::InvalidGrant));
}

#[test]
fn old_codes_are_swept_when_a_new_one_comes() {
    let mut store = OAuthStore::new("bearer".to_owned(), "https://k".to_owned());
    store.authorize_with("c1".to_owned(), form("https://a/", None), 0);
    store.authorize_with("c2".to_owned(), form("https://a/", None), 1);
    assert_eq!(store.pending.len(), 2);
    store.authorize_with("c3".to_owned(), form("https://a/", None), CODE_LIFE);
    assert_eq!(store.pending.len(), 2);
}

#[test]
fn fresh_codes_are_handed_to_the_redirect() {
    let mut store = OAuthStore::new("bearer".to_owned(), "https://k".to_owned());
    let mut locations = Vec::new();
    for _ in 0..2 {
        match store.authorize_post(form("https://a/cb", None), 0) {
            AuthorizeReply::Redirect { location } => locations.push(location),
            AuthorizeReply::InvalidRedirect { message } => panic!("{message}"),
        }
    }
    assert_ne!(locations[0], locations[1]);
    let code = locations[0].strip_prefix("https://a/cb?code=").unwrap();
    assert_eq!(code.len(), 36);
    assert!(matches!(store.token(&exchange(code, VERIFIER, "https://a/cb"), 1), TokenReply::Granted { .. }));
    match store.authorize_post(form("not a url", None), 0) {
        AuthorizeReply::InvalidRedirect { message } => assert_eq!(message, "invalid redirect_uri"),
        AuthorizeReply::Redirect { location } => panic!("{location}"),
    }
}

#[test]
fn the_documents_name_the_routes() {
    let store = OAuthStore::new("bearer".to_owned(), "https://k//".to_owned());
    let metadata = store.metadata();
    assert_eq!(metadata.issuer, "https://k");
    assert_eq!(metadata.authorization_endpoint, "https://k/authorize");
    assert_eq!(metadata.token_endpoint, "https://k/token");
    assert_eq!(metadata.response_types_supported, vec!["code".to_owned()]);
    assert_eq!(metadata.code_challenge_methods_supported, vec!["S256".to_owned()]);
    assert_eq!(metadata.grant_types_supported, vec!["authorization_code".to_owned()]);
    let resource = store.protected_resource();
    assert_eq!(resource.resource, "https://k");
    assert_eq!(resource.authorization_servers, vec!["https://k".to_owned()]);
    assert_eq!(resource.bearer_methods_supported, vec!["header".to_owned()]);
}
